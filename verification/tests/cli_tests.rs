use agentgif::cli::{
    badge_options, badge_output, clip_bytes, confirms_delete, detect_source_type,
    device_auth_reply, embed_output, generate_payload, generation_timed_out, pad, record_options,
    repo_name, require_auth, resolve_source, table_row, tape_output_path, title_from_stem,
    update_fields, update_notice, upload_options, Align, GenerateWatch, LoginPoll, LoginStep,
    WatchStep, MAX_LOGIN_POLLS, VERSION,
};
use agentgif::params::Params;
use agentgif::Config;

fn entries(p: &Params) -> Vec<(String, String)> {
    (0..p.len())
        .map(|i| (p.name_at(i).clone(), p.value_at(i).clone()))
        .collect()
}

fn pairs(v: &[(&str, &str)]) -> Vec<(String, String)> {
    v.iter().map(|(a, b)| (a.to_string(), b.to_string())).collect()
}

#[test]
fn detect_source_type_cases() {
    assert_eq!(detect_source_type("https://github.com/a/b"), "github");
    assert_eq!(detect_source_type("https://pypi.org/project/x/"), "pypi");
    assert_eq!(detect_source_type("https://www.npmjs.com/package/x"), "npm");
    assert_eq!(detect_source_type("https://example.com"), "");
    assert_eq!(detect_source_type("github.compypi.org"), "github");
}

#[test]
fn resolve_source_priority() {
    let (u, t) = resolve_source(Some("https://github.com/a/b"), Some("rich"), Some("left-pad")).unwrap();
    assert_eq!(u, "https://pypi.org/project/rich/");
    assert_eq!(t, "pypi");
    let (u, t) = resolve_source(Some("https://github.com/a/b"), None, Some("left-pad")).unwrap();
    assert_eq!(u, "https://www.npmjs.com/package/left-pad");
    assert_eq!(t, "npm");
    let (u, t) = resolve_source(Some("https://example.com/x"), None, None).unwrap();
    assert_eq!(u, "https://example.com/x");
    assert_eq!(t, "");
    assert_eq!(
        resolve_source(None, None, None).unwrap_err(),
        "Provide a source URL, --pypi <package>, or --npm <package>"
    );
}

#[test]
fn generate_payload_json() {
    assert_eq!(
        generate_payload("https://pypi.org/project/rich/", "pypi", 5),
        "{\"max_gifs\":5,\"source_type\":\"pypi\",\"source_url\":\"https://pypi.org/project/rich/\"}"
    );
    assert_eq!(
        generate_payload("https://x.org", "", 2),
        "{\"max_gifs\":2,\"source_url\":\"https://x.org\"}"
    );
}

#[test]
fn update_notice_cases() {
    let mut v = Params::new();
    assert_eq!(update_notice(&v), None);
    v.insert("latest".into(), VERSION.into());
    assert_eq!(update_notice(&v), None);
    v.insert("latest".into(), "".into());
    assert_eq!(update_notice(&v), None);
    v.insert("latest".into(), "0.3.1".into());
    assert_eq!(
        update_notice(&v),
        Some("Update available: 0.2.0 \u{2192} 0.3.1. Run: cargo install agentgif".to_string())
    );
}

#[test]
fn require_auth_cases() {
    assert_eq!(
        require_auth(&Config::default()),
        Err("Not logged in. Run: agentgif login".to_string())
    );
    let cfg = Config { api_key: "k".into(), username: String::new() };
    assert_eq!(require_auth(&cfg), Ok(()));
}

#[test]
fn upload_options_order_and_visibility() {
    let o = upload_options(Some("T"), None, Some("npm test"), None, Some("a.cast"), Some("dracula"), false, Some("repo"));
    assert_eq!(
        entries(&o),
        pairs(&[
            ("title", "T"),
            ("command", "npm test"),
            ("cast_path", "a.cast"),
            ("theme", "dracula"),
            ("visibility", "public"),
            ("repo_slug", "repo"),
        ])
    );
    let o = upload_options(None, None, None, None, None, None, true, None);
    assert_eq!(entries(&o), pairs(&[("visibility", "unlisted")]));
}

#[test]
fn record_and_badge_options() {
    let o = record_options("my demo", Some("nord"), None);
    assert_eq!(
        entries(&o),
        pairs(&[("title", "my demo"), ("visibility", "public"), ("theme", "nord")])
    );
    let b = badge_options("version", None, Some("flat"));
    assert_eq!(entries(&b), pairs(&[("metric", "version"), ("style", "flat")]));
}

#[test]
fn update_fields_cases() {
    let f = update_fields(Some("t"), None, None, Some("x,y")).unwrap();
    assert_eq!(entries(&f), pairs(&[("title", "t"), ("tags", "x,y")]));
    assert_eq!(
        update_fields(None, None, None, None).err().unwrap(),
        "No fields to update. Use --title, --description, --command, or --tags."
    );
}

#[test]
fn confirm_delete_answers() {
    assert!(confirms_delete("y\n"));
    assert!(confirms_delete("  Y  "));
    assert!(!confirms_delete("yes"));
    assert!(!confirms_delete(""));
    assert!(!confirms_delete("n"));
}

#[test]
fn repo_name_from_remote() {
    assert_eq!(repo_name("https://github.com/me/demo.git\n"), "demo");
    assert_eq!(repo_name("git@github.com:me/demo.git"), "demo");
    assert_eq!(repo_name("https://github.com/me/demo/"), "demo");
    assert_eq!(repo_name("demo.git.git"), "demo");
    assert_eq!(repo_name("plain"), "plain");
    assert_eq!(repo_name("  "), "");
}

#[test]
fn title_from_stem_replaces_dashes() {
    assert_eq!(title_from_stem("my-cool_demo"), "my cool demo");
}

#[test]
fn tape_output_path_cases() {
    let tape = "Set Theme dracula\n  Output \"out/demo.gif\"  \r\nType ls\nOutput other.gif\n";
    assert_eq!(tape_output_path(tape), Some("out/demo.gif".to_string()));
    assert_eq!(tape_output_path("Output 'a b.gif'"), Some("a b.gif".to_string()));
    assert_eq!(tape_output_path("Type x\nOutputx.gif\n"), None);
    assert_eq!(tape_output_path(""), None);
}

#[test]
fn badge_output_formats() {
    let mut d = Params::new();
    d.insert("url".into(), "U".into());
    d.insert("markdown".into(), "M".into());
    d.insert("html".into(), "H".into());
    assert_eq!(
        badge_output(&d, "all").unwrap(),
        vec!["URL:  U", "Markdown:\nM", "HTML:\nH", "Image:\n"]
    );
    assert_eq!(badge_output(&d, "md").unwrap(), vec!["M"]);
    assert_eq!(badge_output(&d, "img").unwrap(), vec![""]);
    assert_eq!(badge_output(&d, "svg").unwrap_err(), "Unknown format: svg");
}

#[test]
fn embed_output_formats() {
    let mut c = Params::new();
    c.insert("html".into(), "<img>".into());
    c.insert("markdown".into(), "![g](u)".into());
    assert_eq!(embed_output(&c, "md").unwrap(), vec!["![g](u)"]);
    assert_eq!(embed_output(&c, "html").unwrap(), vec!["<img>"]);
    assert_eq!(
        embed_output(&c, "all").unwrap(),
        vec!["html:\n<img>\n", "markdown:\n![g](u)\n"]
    );
    assert_eq!(embed_output(&c, "iframe").unwrap_err(), "Unknown format: iframe");
}

#[test]
fn device_auth_reply_reads_fields() {
    let d = device_auth_reply(200, "{\"verification_url\":\"https://a/v\",\"user_code\":\"UC\",\"device_code\":\"DC\",\"interval\":5}").ok().unwrap();
    assert_eq!(d.verification_url, "https://a/v");
    assert_eq!(d.user_code, "UC");
    assert_eq!(d.device_code, "DC");
    let d = device_auth_reply(201, "{}").ok().unwrap();
    assert_eq!(d.device_code, "");
    let e = device_auth_reply(429, "{\"error\":\"slow down\"}").err().unwrap();
    assert_eq!(e.message, "slow down");
}

#[test]
fn login_poll_steps() {
    let mut p = LoginPoll::new();
    assert!(p.may_poll());
    assert!(matches!(p.on_reply(None), LoginStep::Pending));
    assert!(matches!(p.on_reply(Some((400, "{}"))), LoginStep::Pending));
    assert!(matches!(p.on_reply(Some((403, ""))), LoginStep::Denied));
    assert!(matches!(p.on_reply(Some((410, ""))), LoginStep::Expired));
    match p.on_reply(Some((200, "{\"api_key\":\"K\",\"username\":\"me\"}"))) {
        LoginStep::LoggedIn { api_key, username } => {
            assert_eq!(api_key, "K");
            assert_eq!(username, "me");
        }
        _ => panic!("expected a login"),
    }
    match p.on_reply(Some((200, "not json"))) {
        LoginStep::LoggedIn { api_key, username } => {
            assert_eq!(api_key, "");
            assert_eq!(username, "");
        }
        _ => panic!("expected a login"),
    }
}

#[test]
fn login_poll_allows_exactly_max_polls() {
    let mut p = LoginPoll::new();
    let mut n = 0;
    while p.may_poll() {
        p.on_reply(None);
        n += 1;
    }
    assert_eq!(n, MAX_LOGIN_POLLS);
}

#[test]
fn generate_watch_announces_changes() {
    let mut w = GenerateWatch::new();
    let r = w.observe("{\"status\":\"running\"}");
    assert_eq!(r.announce, Some("running".to_string()));
    assert!(matches!(r.step, WatchStep::Continue));
    let r = w.observe("{\"status\":\"running\"}");
    assert_eq!(r.announce, None);
    let r = w.observe("{\"status\":\"completed\",\"gifs_created\":2}");
    assert_eq!(r.announce, Some("completed".to_string()));
    assert!(matches!(r.step, WatchStep::Completed));
    let mut w = GenerateWatch::new();
    match w.observe("{\"status\":\"failed\"}").step {
        WatchStep::Failed(m) => assert_eq!(m, "Unknown error"),
        _ => panic!("expected a failure"),
    }
    match w.observe("{\"status\":\"failed\",\"error_message\":\"no README\"}").step {
        WatchStep::Failed(m) => assert_eq!(m, "no README"),
        _ => panic!("expected a failure"),
    }
    let mut w = GenerateWatch::new();
    assert_eq!(w.observe("{}").announce, None);
    assert!(!generation_timed_out(300));
    assert!(generation_timed_out(301));
}

#[test]
fn table_formatting() {
    assert_eq!(pad("ab", 5, Align::Left), "ab   ");
    assert_eq!(pad("ab", 5, Align::Right), "   ab");
    assert_eq!(pad("abcdef", 3, Align::Left), "abcdef");
    assert_eq!(pad("é", 3, Align::Left), "é  ");
    assert_eq!(clip_bytes("abcdef", 3), "abc");
    assert_eq!(clip_bytes("ab", 3), "ab");
    let row = table_row(&vec![
        ("ID".to_string(), 10, Align::Left),
        ("Title".to_string(), 30, Align::Left),
        ("Command".to_string(), 0, Align::Left),
    ]);
    assert_eq!(row, format!("{:<10}  {:<30}  {}", "ID", "Title", "Command"));
    let row = table_row(&vec![
        ("x".to_string(), 10, Align::Left),
        ("t".to_string(), 30, Align::Left),
        ("42".to_string(), 6, Align::Right),
    ]);
    assert_eq!(row, format!("{:<10}  {:<30}  {:>6}", "x", "t", "42"));
}
