use agentgif::client::{
    delete_reply, embed_codes_reply, handle_response, string_map_reply, Body, Method, ReplyError,
};
use agentgif::params::Params;
use agentgif::urlencoding;
use agentgif::{ApiError, Client, Config, DEFAULT_BASE_URL};

fn headers(r: &agentgif::client::Request) -> Vec<(String, String)> {
    r.headers.clone()
}

fn body_text(b: &Body) -> Option<String> {
    match b {
        Body::Empty => None,
        Body::Text(t) => Some(t.clone()),
    }
}

#[test]
fn test_api_error_display() {
    let err = ApiError {
        message: "Not found".into(),
        status: 404,
    };
    assert_eq!(err.to_string(), "API error 404: Not found");
}

#[test]
fn test_default_base_url() {
    assert_eq!(DEFAULT_BASE_URL, "https://agentgif.com");
}

#[test]
fn test_urlencoding() {
    assert_eq!(urlencoding("hello world"), "hello%20world");
    assert_eq!(urlencoding("@fyipedia/colorfyi"), "%40fyipedia%2Fcolorfyi");
    assert_eq!(urlencoding("simple"), "simple");
}

#[test]
fn test_urlencoding_special_chars() {
    assert_eq!(urlencoding("a+b"), "a%2Bb");
    assert_eq!(urlencoding("a&b=c"), "a%26b%3Dc");
}

#[test]
fn urlencoding_keeps_every_unreserved_byte() {
    let unreserved = "ABCXYZabcxyz0189-_.~";
    assert_eq!(urlencoding(unreserved), unreserved);
}

#[test]
fn urlencoding_writes_utf8_bytes_in_upper_hex() {
    assert_eq!(urlencoding("é"), "%C3%A9");
    assert_eq!(urlencoding(""), "");
    assert_eq!(urlencoding("\n/?"), "%0A%2F%3F");
}

#[test]
fn urlencoding_output_is_url_safe() {
    let encoded = urlencoding("a b&c=d?e/f#g%h");
    assert!(encoded
        .chars()
        .all(|c| c == '%' || c.is_ascii_alphanumeric() || "-_.~".contains(c)));
}

#[test]
fn api_error_display_of_small_and_large_status() {
    let err = ApiError { message: String::new(), status: 0 };
    assert_eq!(err.to_string(), "API error 0: ");
    let err = ApiError { message: "x".into(), status: 65535 };
    assert_eq!(err.to_string(), "API error 65535: x");
}

#[test]
fn request_carries_key_only_when_set() {
    let anonymous = Client::with_base_url("http://localhost:8000");
    let r = anonymous.whoami();
    assert_eq!(r.method, Method::Get);
    assert_eq!(r.url, "http://localhost:8000/api/v1/users/me/");
    assert_eq!(
        headers(&r),
        vec![("Content-Type".to_string(), "application/json".to_string())]
    );
    assert_eq!(body_text(&r.body), None);

    let keyed = Client::with_base_url_and_key("http://h", "k1");
    let r = keyed.cli_version();
    assert_eq!(r.url, "http://h/api/v1/cli/version/");
    assert_eq!(
        headers(&r),
        vec![
            ("Content-Type".to_string(), "application/json".to_string()),
            ("Authorization".to_string(), "Token k1".to_string()),
        ]
    );
}

#[test]
fn new_client_uses_default_server_and_stored_key() {
    let cfg = Config { api_key: "abc".into(), username: "u".into() };
    let c = Client::new(&cfg);
    assert_eq!(c.base_url, "https://agentgif.com");
    assert_eq!(c.api_key, "abc");
}

#[test]
fn endpoint_paths() {
    let c = Client::with_base_url("B");
    assert_eq!(c.search("docker build").url, "B/api/v1/search/?q=docker%20build");
    assert_eq!(c.list_gifs("").url, "B/api/v1/gifs/me/");
    assert_eq!(c.list_gifs("me/repo").url, "B/api/v1/gifs/me/?repo=me%2Frepo");
    assert_eq!(c.get_gif("abc123").url, "B/api/v1/gifs/abc123/");
    let d = c.delete_gif("abc123");
    assert_eq!(d.method, Method::Delete);
    assert_eq!(d.url, "B/api/v1/gifs/abc123/");
    assert_eq!(c.badge_themes().url, "B/api/v1/themes/badges/");
    assert_eq!(c.generate_status("j1").url, "B/api/v1/gifs/generate/j1/");
    let a = c.device_auth();
    assert_eq!(a.method, Method::Post);
    assert_eq!(a.url, "B/api/v1/auth/device/");
    assert_eq!(body_text(&a.body), Some("{}".to_string()));
    let g = c.generate_tape("{\"x\":1}");
    assert_eq!(g.method, Method::Post);
    assert_eq!(body_text(&g.body), Some("{\"x\":1}".to_string()));
}

#[test]
fn device_token_request_has_no_authorization() {
    let c = Client::with_base_url_and_key("B", "secret");
    let r = c.device_token("dc-1");
    assert_eq!(r.method, Method::Post);
    assert_eq!(r.url, "B/api/v1/auth/device/token/");
    assert_eq!(
        headers(&r),
        vec![("Content-Type".to_string(), "application/json".to_string())]
    );
    assert_eq!(body_text(&r.body), Some("{\"device_code\":\"dc-1\"}".to_string()));
}

#[test]
fn update_gif_sends_fields_as_json_object() {
    let c = Client::with_base_url("B");
    let mut fields = Params::new();
    fields.insert("title".into(), "New \"T\"".into());
    fields.insert("tags".into(), "a,b".into());
    let r = c.update_gif("g1", &fields);
    assert_eq!(r.method, Method::Patch);
    assert_eq!(r.url, "B/api/v1/gifs/g1/");
    assert_eq!(
        body_text(&r.body),
        Some("{\"tags\":\"a,b\",\"title\":\"New \\\"T\\\"\"}".to_string())
    );
}

#[test]
fn badge_query_skips_empty_options_and_encodes() {
    let c = Client::with_base_url("B");
    let mut opts = Params::new();
    opts.insert("metric".into(), "version".into());
    opts.insert("theme".into(), "".into());
    opts.insert("style".into(), "flat square".into());
    let r = c.badge_url("pypi", "@scope/pkg", &opts);
    assert_eq!(
        r.url,
        "B/api/v1/badge-url/?provider=pypi&package=%40scope%2Fpkg&metric=version&style=flat%20square"
    );
}

#[test]
fn upload_plan_selects_fields() {
    let c = Client::with_base_url_and_key("B", "k");
    let mut opts = Params::new();
    opts.insert("title".into(), "T".into());
    opts.insert("description".into(), "".into());
    opts.insert("cast_path".into(), "demo.cast".into());
    opts.insert("visibility".into(), "public".into());
    let u = c.upload("demo.gif", &opts);
    assert_eq!(u.url, "B/api/v1/gifs/");
    assert_eq!(u.authorization, Some("Token k".to_string()));
    assert_eq!(u.gif_path, "demo.gif");
    assert_eq!(
        u.fields,
        vec![
            ("title".to_string(), "T".to_string()),
            ("visibility".to_string(), "public".to_string())
        ]
    );
    assert_eq!(u.cast_path, Some("demo.cast".to_string()));
    assert_eq!(u.gif_file_name, "demo.gif");
    assert_eq!(u.cast_file_name, Some("demo.cast".to_string()));

    let anonymous = Client::with_base_url("B");
    let mut opts = Params::new();
    opts.insert("cast_path".into(), "".into());
    let u = anonymous.upload("x.gif", &opts);
    assert_eq!(u.authorization, None);
    assert_eq!(u.cast_path, None);
    assert_eq!(u.cast_file_name, None);
    assert!(u.fields.is_empty());
    let nested = anonymous.upload("/tmp/out/demo.gif", &opts);
    assert_eq!(nested.gif_file_name, "demo.gif");
}

#[test]
fn handle_response_prefers_error_then_detail_then_body() {
    let e = handle_response(404, "{\"error\":\"Not found\",\"detail\":\"d\"}").unwrap_err();
    assert_eq!(e.status, 404);
    assert_eq!(e.message, "Not found");
    let e = handle_response(401, "{\"detail\":\"Bad token\"}").unwrap_err();
    assert_eq!(e.message, "Bad token");
    let e = handle_response(500, "{\"error\":3}").unwrap_err();
    assert_eq!(e.message, "{\"error\":3}");
    let e = handle_response(502, "<html>gateway</html>").unwrap_err();
    assert_eq!(e.status, 502);
    assert_eq!(e.message, "<html>gateway</html>");
    assert_eq!(handle_response(399, "{\"a\":1}").unwrap(), "{\"a\":1}");
    assert_eq!(handle_response(200, "not json").unwrap(), "not json");
}

#[test]
fn delete_reply_reports_status_400() {
    let e = delete_reply(404, "gone").unwrap_err();
    assert_eq!(e.status, 400);
    assert_eq!(e.message, "gone");
    assert!(delete_reply(204, "").is_ok());
}

#[test]
fn string_map_reply_cases() {
    let ok = string_map_reply(200, "{\"latest\":\"0.3.0\",\"min\":\"0.1.0\"}").ok().unwrap();
    assert_eq!(ok.get("latest").cloned(), Some("0.3.0".to_string()));
    assert_eq!(ok.get("min").cloned(), Some("0.1.0".to_string()));
    assert_eq!(ok.len(), 2);
    match string_map_reply(503, "down") {
        Err(ReplyError::Api(e)) => {
            assert_eq!(e.status, 503);
            assert_eq!(e.message, "down");
        }
        _ => panic!("expected an API error"),
    }
    match string_map_reply(200, "{\"n\":1}") {
        Err(ReplyError::Decode(m)) => assert!(!m.is_empty()),
        _ => panic!("expected a decode error"),
    }
    let err = string_map_reply(500, "boom").err().unwrap();
    assert_eq!(err.to_string(), "API error 500: boom");
}

#[test]
fn embed_codes_keep_string_members_only() {
    let body = "{\"id\":\"g\",\"embed\":{\"markdown\":\"![x](u)\",\"html\":\"<img>\",\"n\":3}}";
    let codes = embed_codes_reply(200, body).ok().unwrap();
    assert_eq!(codes.len(), 2);
    assert_eq!(codes.get("markdown").cloned(), Some("![x](u)".to_string()));
    assert_eq!(codes.get("html").cloned(), Some("<img>".to_string()));
    assert_eq!(codes.get("n"), None);
    assert!(embed_codes_reply(200, "{\"id\":\"g\"}").ok().unwrap().is_empty());
    assert!(embed_codes_reply(200, "garbage").ok().unwrap().is_empty());
    let e = embed_codes_reply(404, "{\"detail\":\"Not found.\"}").err().unwrap();
    assert_eq!(e.message, "Not found.");
}

#[test]
fn urlencoding_keeps_exactly_unreserved_text() {
    assert_eq!(urlencoding("Az09-_.~"), "Az09-_.~");
    assert_ne!(urlencoding("a b"), "a b");
    assert_ne!(urlencoding("é"), "é");
    assert_ne!(urlencoding("a+b"), urlencoding("a b"));
    assert_eq!(urlencoding("é"), "%C3%A9");
}
