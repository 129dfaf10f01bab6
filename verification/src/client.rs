//! The AgentGIF HTTP API, without the network.
//!
//! Each API call of [`Client`] returns the request to send; the caller
//! sends it and hands the reply (status code and body text) to the matching
//! reply function below, which turns it into a value or an error.
use vstd::prelude::*;
use crate::config::Config;
use crate::paths::{file_name_fits, file_name_or_empty};
use crate::json::{JsonScalar, json_member_string, json_member_entries, json_string_map,
    json_object_text, member_entries_view, scalar_entries_view, opt_string_view};
use crate::params::{Params, ParamsView, entries_view, lookup, names_distinct, seq_distinct, names_drawn_from,
    lemma_fill_in_name_order, has_name, lemma_lookup_at, candidates_distinct, is_candidate, present, lemma_present_lookup};
use crate::text::{copy_str, decimal, push_decimal};
use crate::urlenc::{encode_component, urlencoding};

verus! {

/// The server the client talks to unless told otherwise.
pub const DEFAULT_BASE_URL: &'static str = "https://agentgif.com";

/// An error reported by the server (HTTP status 400 or above).
#[derive(Debug)]
pub struct ApiError {
    pub message: String,
    pub status: u16,
}

/// The text of an [`ApiError`]: `API error <status>: <message>`.
pub open spec fn api_error_text(message: Seq<char>, status: u16) -> Seq<char> {
    "API error "@ + decimal(status as nat) + ": "@ + message
}

impl ApiError {
    /// The error's text, as the program prints it.
    pub fn to_string(&self) -> (s: String)
        ensures
            s@ == api_error_text(self.message@, self.status),
    {
        let mut s = String::from_str("API error ");
        push_decimal(&mut s, self.status as u64);
        s.append(": ");
        s.append(self.message.as_str());
        s
    }
}

/// HTTP methods the API uses.
#[derive(PartialEq, Eq, Structural, Clone, Copy, Debug)]
pub enum Method {
    Get,
    Post,
    Patch,
    Delete,
}

/// A request body.
#[derive(Debug)]
pub enum Body {
    Empty,
    Text(String),
}

pub open spec fn body_view(b: &Body) -> Option<Seq<char>> {
    match b {
        Body::Empty => None,
        Body::Text(t) => Some(t@),
    }
}

/// A request to send: method, full URL, headers in order, body.
#[derive(Debug)]
pub struct Request {
    pub method: Method,
    pub url: String,
    pub headers: Vec<(String, String)>,
    pub body: Body,
}

/// A client of the API at `base_url`, authenticated by `api_key` when that
/// is not empty.
#[derive(Debug)]
pub struct Client {
    pub base_url: String,
    pub api_key: String,
}

/// The URL of an API path.
pub open spec fn api_url(base_url: Seq<char>, path: Seq<char>) -> Seq<char> {
    base_url + "/api/v1"@ + path
}

pub open spec fn json_content_type() -> (Seq<char>, Seq<char>) {
    ("Content-Type"@, "application/json"@)
}

/// The `Authorization` header value for a key.
pub open spec fn token_value(api_key: Seq<char>) -> Seq<char> {
    "Token "@ + api_key
}

/// Headers of every API request: JSON content type, and the key when there
/// is one.
pub open spec fn standard_headers(api_key: Seq<char>) -> ParamsView {
    if api_key.len() == 0 {
        seq![json_content_type()]
    } else {
        seq![json_content_type(), ("Authorization"@, token_value(api_key))]
    }
}

/// `r` is the API request `method path` of `client`, with body `body`.
pub open spec fn is_api_request(
    r: Request,
    client: Client,
    method: Method,
    path: Seq<char>,
    body: Option<Seq<char>>,
) -> bool {
    &&& r.method == method
    &&& r.url@ == api_url(client.base_url@, path)
    &&& entries_view(r.headers@) == standard_headers(client.api_key@)
    &&& body_view(&r.body) == body
}

/// Every API request goes to the base URL, `/api/v1` and the path, says
/// that it sends JSON, and carries `Token <key>` as its authorization
/// exactly when the client has a key.
pub proof fn law_api_request_shape(r: Request, client: Client, method: Method, path: Seq<char>, body: Option<Seq<char>>)
    requires
        is_api_request(r, client, method, path, body),
    ensures
        r.method == method,
        r.url@ == client.base_url@ + "/api/v1"@ + path,
        lookup(entries_view(r.headers@), "Content-Type"@) == Some("application/json"@),
        lookup(entries_view(r.headers@), "Authorization"@) == (if client.api_key@.len() == 0 {
            None
        } else {
            Some("Token "@ + client.api_key@)
        }),
        body_view(&r.body) == body,
{
    let h = entries_view(r.headers@);
    reveal_strlit("Content-Type");
    reveal_strlit("Authorization");
    assert("Content-Type"@[0] != "Authorization"@[0]);
    assert(names_distinct(h));
    lemma_lookup_at(h, 0);
    if client.api_key@.len() == 0 {
        assert(!has_name(h, "Authorization"@)) by {
            if has_name(h, "Authorization"@) {
                let k = choose|k: int| 0 <= k < h.len() && #[trigger] h[k].0 == "Authorization"@;
                assert(k == 0);
            }
        }
    } else {
        lemma_lookup_at(h, 1);
    }
}

/// The body of a field update holds every field, in order, under its own
/// name with its value as a JSON string.
pub proof fn law_text_members(fields: ParamsView)
    ensures
        text_members(fields).len() == fields.len(),
        forall|i: int| 0 <= i < fields.len() ==> #[trigger] text_members(fields)[i]
            == (fields[i].0, crate::json::JsonScalarView::Text(fields[i].1)),
{
}

/// The JSON object whose members are the given names with string values.
pub open spec fn text_fields_json(fields: ParamsView) -> Seq<char> {
    json_object_text(text_members(fields))
}

/// Fields as JSON members with string values.
pub open spec fn text_members(fields: ParamsView) -> Seq<(Seq<char>, crate::json::JsonScalarView)> {
    Seq::new(fields.len(), |i: int| (fields[i].0, crate::json::JsonScalarView::Text(fields[i].1)))
}

fn header(name: &str, value: String) -> (h: (String, String))
    ensures
        h.0@ == name@,
        h.1@ == value@,
{
    (copy_str(name), value)
}

fn concat3(a: &str, b: &str, c: &str) -> (s: String)
    ensures
        s@ == a@ + b@ + c@,
{
    let mut s = String::from_str(a);
    s.append(b);
    s.append(c);
    s
}

/// A multipart upload to send.
#[derive(Debug)]
pub struct UploadRequest {
    pub url: String,
    /// The `Authorization` header value, when the client has a key.
    pub authorization: Option<String>,
    /// The GIF file, sent as the part [`UPLOAD_GIF_PART`] of type [`GIF_MIME`].
    pub gif_path: String,
    /// The file name sent with the GIF: the final component of its path.
    pub gif_file_name: String,
    /// Text fields, in order.
    pub fields: Vec<(String, String)>,
    /// The asciicast file, sent as the part [`UPLOAD_CAST_PART`] when it can be read.
    pub cast_path: Option<String>,
    /// The file name sent with the asciicast, when there is one.
    pub cast_file_name: Option<String>,
}

/// Multipart part name of the uploaded GIF.
pub const UPLOAD_GIF_PART: &'static str = "gif";

/// Multipart part name of the uploaded asciicast.
pub const UPLOAD_CAST_PART: &'static str = "cast";

/// Content type of the uploaded GIF.
pub const GIF_MIME: &'static str = "image/gif";

/// The upload options sent as text fields: those with a non-empty value,
/// except `cast_path`, in order.
pub open spec fn upload_fields(opts: ParamsView) -> ParamsView
    decreases opts.len(),
{
    if opts.len() == 0 {
        seq![]
    } else {
        let rest = upload_fields(opts.drop_last());
        let e = opts.last();
        if e.1.len() > 0 && e.0 != "cast_path"@ {
            rest.push(e)
        } else {
            rest
        }
    }
}

/// The asciicast path to send, when the `cast_path` option is set and not empty.
pub open spec fn cast_path_option(opts: ParamsView) -> Option<Seq<char>> {
    match lookup(opts, "cast_path"@) {
        Some(p) => if p.len() > 0 {
            Some(p)
        } else {
            None
        },
        None => None,
    }
}

/// The candidate reading of [`upload_fields`]: each option with its value
/// when it is sent as a text field.
pub open spec fn upload_field_candidates(opts: ParamsView) -> Seq<(Seq<char>, Option<Seq<char>>)> {
    opts.map_values(|e: (Seq<char>, Seq<char>)| (e.0, if e.1.len() > 0 && e.0 != "cast_path"@ { Some(e.1) } else { None }))
}

proof fn lemma_upload_fields_present(opts: ParamsView)
    ensures
        upload_fields(opts) == present(upload_field_candidates(opts)),
    decreases opts.len(),
{
    if opts.len() > 0 {
        lemma_upload_fields_present(opts.drop_last());
        assert(upload_field_candidates(opts).drop_last() =~= upload_field_candidates(opts.drop_last()));
    }
}

/// An upload sends as a text field each option with a non-empty value
/// under its own name, except `cast_path`, and no other field.
pub proof fn law_upload_fields(opts: ParamsView, name: Seq<char>)
    requires
        names_distinct(opts),
    ensures
        lookup(upload_fields(opts), name) == (if name == "cast_path"@ {
            None
        } else {
            match lookup(opts, name) {
                Some(v) => if v.len() > 0 { Some(v) } else { None },
                None => None,
            }
        }),
{
    let c = upload_field_candidates(opts);
    lemma_upload_fields_present(opts);
    assert(candidates_distinct(c)) by {
        assert forall|a: int, b: int| 0 <= a < b < c.len() implies #[trigger] c[a].0 != #[trigger] c[b].0 by {
            assert(c[a].0 == opts[a].0 && c[b].0 == opts[b].0);
        }
    }
    lemma_present_lookup(c, name);
    if has_name(opts, name) {
        let j = choose|j: int| 0 <= j < opts.len() && #[trigger] opts[j].0 == name;
        lemma_lookup_at(opts, j);
        assert(c[j].0 == name);
    } else {
        assert(!is_candidate(c, name)) by {
            if is_candidate(c, name) {
                let j = choose|j: int| 0 <= j < c.len() && #[trigger] c[j].0 == name;
                assert(opts[j].0 == name);
            }
        }
    }
}

/// `name=value` with both sides encoded.
pub open spec fn query_pair(name: Seq<char>, value: Seq<char>) -> Seq<char> {
    encode_component(name) + "="@ + encode_component(value)
}

/// The query pairs of the options with a non-empty value, in order.
pub open spec fn option_pairs(opts: ParamsView) -> Seq<Seq<char>>
    decreases opts.len(),
{
    if opts.len() == 0 {
        seq![]
    } else {
        let rest = option_pairs(opts.drop_last());
        let e = opts.last();
        if e.1.len() > 0 {
            rest.push(query_pair(e.0, e.1))
        } else {
            rest
        }
    }
}

/// The parts joined with `&`.
pub open spec fn join_query(parts: Seq<Seq<char>>) -> Seq<char>
    decreases parts.len(),
{
    if parts.len() == 0 {
        seq![]
    } else if parts.len() == 1 {
        parts[0]
    } else {
        join_query(parts.drop_last()) + "&"@ + parts.last()
    }
}

/// The badge query: provider, package, then the options with a value.
pub open spec fn badge_query(provider: Seq<char>, package: Seq<char>, opts: ParamsView) -> Seq<char> {
    join_query(badge_query_parts(provider, package, opts))
}

pub open spec fn badge_query_parts(provider: Seq<char>, package: Seq<char>, opts: ParamsView) -> Seq<Seq<char>> {
    seq!["provider="@ + encode_component(provider), "package="@ + encode_component(package)]
        + option_pairs(opts)
}

/// The pieces of a text between `&` characters (`str::split('&')`).
pub open spec fn split_at_amp(cs: Seq<char>) -> Seq<Seq<char>>
    decreases cs.len(),
{
    if cs.len() == 0 {
        seq![seq![]]
    } else if cs.last() == '&' {
        split_at_amp(cs.drop_last()).push(seq![])
    } else {
        let pieces = split_at_amp(cs.drop_last());
        pieces.update(pieces.len() - 1, pieces.last().push(cs.last()))
    }
}

proof fn lemma_split_nonempty(cs: Seq<char>)
    ensures
        split_at_amp(cs).len() >= 1,
    decreases cs.len(),
{
    if cs.len() > 0 {
        lemma_split_nonempty(cs.drop_last());
    }
}

proof fn lemma_split_no_amp(cs: Seq<char>)
    requires
        !cs.contains('&'),
    ensures
        split_at_amp(cs) == seq![cs],
    decreases cs.len(),
{
    if cs.len() > 0 {
        let init = cs.drop_last();
        assert(!init.contains('&')) by {
            if init.contains('&') {
                let i = choose|i: int| 0 <= i < init.len() && init[i] == '&';
                assert(cs[i] == '&');
            }
        }
        lemma_split_no_amp(init);
        assert(cs.last() != '&') by {
            assert(cs[cs.len() - 1] == cs.last());
        }
        assert(init.push(cs.last()) =~= cs);
        assert(seq![init].update(0, init.push(cs.last())) =~= seq![cs]);
    } else {
        assert(cs =~= Seq::<char>::empty());
    }
}

proof fn lemma_split_concat(a: Seq<char>, b: Seq<char>)
    ensures
        split_at_amp(a + seq!['&'] + b) == split_at_amp(a) + split_at_amp(b),
    decreases b.len(),
{
    let whole = a + seq!['&'] + b;
    if b.len() == 0 {
        assert(whole.drop_last() =~= a);
        assert(split_at_amp(a).push(seq![]) =~= split_at_amp(a) + seq![seq![]]);
    } else {
        let b0 = b.drop_last();
        assert(whole.drop_last() =~= a + seq!['&'] + b0);
        lemma_split_concat(a, b0);
        lemma_split_nonempty(b0);
        lemma_split_nonempty(a);
        let left = split_at_amp(a);
        let right = split_at_amp(b0);
        if b.last() == '&' {
            assert((left + right).push(seq![]) =~= left + right.push(seq![]));
        } else {
            let lr = left + right;
            assert(lr.update(lr.len() - 1, lr.last().push(b.last())) =~= left + right.update(
                right.len() - 1,
                right.last().push(b.last()),
            ));
        }
    }
}

/// Parts free of `&` joined with `&` split back into the same parts.
pub proof fn lemma_split_join(parts: Seq<Seq<char>>)
    requires
        parts.len() >= 1,
        forall|i: int| 0 <= i < parts.len() ==> !(#[trigger] parts[i]).contains('&'),
    ensures
        split_at_amp(join_query(parts)) == parts,
    decreases parts.len(),
{
    reveal_strlit("&");
    if parts.len() == 1 {
        lemma_split_no_amp(parts[0]);
        assert(seq![parts[0]] =~= parts);
    } else {
        let init = parts.drop_last();
        assert forall|i: int| 0 <= i < init.len() implies !(#[trigger] init[i]).contains('&') by {
            assert(init[i] == parts[i]);
        }
        lemma_split_join(init);
        assert("&"@ =~= seq!['&']);
        lemma_split_concat(join_query(init), parts.last());
        lemma_split_no_amp(parts.last());
        assert(init + seq![parts.last()] =~= parts);
    }
}

proof fn lemma_encoded_no_amp(cs: Seq<char>)
    ensures
        !encode_component(cs).contains('&'),
{
    crate::urlenc::lemma_encode_url_safe(vstd::utf8::encode_utf8(cs));
    let e = encode_component(cs);
    if e.contains('&') {
        let i = choose|i: int| 0 <= i < e.len() && e[i] == '&';
        assert(crate::urlenc::is_url_safe_char(e[i]));
    }
}

proof fn lemma_no_amp_concat(a: Seq<char>, b: Seq<char>)
    requires
        !a.contains('&'),
        !b.contains('&'),
    ensures
        !(a + b).contains('&'),
{
    if (a + b).contains('&') {
        let i = choose|i: int| 0 <= i < (a + b).len() && (a + b)[i] == '&';
        if i < a.len() {
            assert(a[i] == '&');
        } else {
            assert(b[i - a.len()] == '&');
        }
    }
}

proof fn lemma_option_pairs_no_amp(opts: ParamsView)
    ensures
        forall|i: int| 0 <= i < option_pairs(opts).len() ==> !(#[trigger] option_pairs(opts)[i]).contains('&'),
    decreases opts.len(),
{
    if opts.len() > 0 {
        lemma_option_pairs_no_amp(opts.drop_last());
        let e = opts.last();
        reveal_strlit("=");
        assert(!"="@.contains('&')) by {
            if "="@.contains('&') {
                let i = choose|i: int| 0 <= i < "="@.len() && "="@[i] == '&';
            }
        }
        lemma_encoded_no_amp(e.0);
        lemma_encoded_no_amp(e.1);
        lemma_no_amp_concat(encode_component(e.0), "="@);
        lemma_no_amp_concat(encode_component(e.0) + "="@, encode_component(e.1));
        let rest = option_pairs(opts.drop_last());
        let all = option_pairs(opts);
        assert forall|i: int| 0 <= i < all.len() implies !(#[trigger] all[i]).contains('&') by {
            if i < rest.len() {
                assert(all[i] == rest[i]);
            } else {
                assert(all[i] == query_pair(e.0, e.1));
            }
        }
    }
}

/// A badge query is unambiguous: splitting it at `&` gives back exactly
/// its parts (provider, package, then each option with a value), because
/// no encoded name or value holds a `&`.
pub proof fn lemma_badge_query_splits(provider: Seq<char>, package: Seq<char>, opts: ParamsView)
    ensures
        split_at_amp(badge_query(provider, package, opts)) == badge_query_parts(provider, package, opts),
{
    let parts = badge_query_parts(provider, package, opts);
    reveal_strlit("provider=");
    reveal_strlit("package=");
    assert(!"provider="@.contains('&')) by {
        if "provider="@.contains('&') {
            let i = choose|i: int| 0 <= i < "provider="@.len() && "provider="@[i] == '&';
        }
    }
    assert(!"package="@.contains('&')) by {
        if "package="@.contains('&') {
            let i = choose|i: int| 0 <= i < "package="@.len() && "package="@[i] == '&';
        }
    }
    lemma_encoded_no_amp(provider);
    lemma_encoded_no_amp(package);
    lemma_no_amp_concat("provider="@, encode_component(provider));
    lemma_no_amp_concat("package="@, encode_component(package));
    lemma_option_pairs_no_amp(opts);
    assert forall|i: int| 0 <= i < parts.len() implies !(#[trigger] parts[i]).contains('&') by {
        if i >= 2 {
            assert(parts[i] == option_pairs(opts)[i - 2]);
        }
    }
    lemma_split_join(parts);
}

fn build_badge_query(provider: &str, package: &str, opts: &Params) -> (q: String)
    ensures
        q@ == badge_query(provider@, package@, opts@),
{
    let mut q = String::from_str("provider=");
    q.append(urlencoding(provider).as_str());
    q.append("&package=");
    q.append(urlencoding(package).as_str());
    let ghost head = seq!["provider="@ + encode_component(provider@), "package="@ + encode_component(package@)];
    proof {
        assert(option_pairs(opts@.take(0)) =~= Seq::<Seq<char>>::empty());
        assert(head + option_pairs(opts@.take(0)) =~= head);
        assert(head.drop_last() =~= seq![head[0]]);
        assert(join_query(seq![head[0]]) == head[0]);
        reveal_strlit("&package=");
        reveal_strlit("&");
        reveal_strlit("package=");
        assert("&package="@ =~= "&"@ + "package="@);
        assert(q@ =~= join_query(head));
    }
    let mut i: usize = 0;
    while i < opts.len()
        invariant
            i <= opts@.len(),
            q@ == join_query(head + option_pairs(opts@.take(i as int))),
            head.len() == 2,
        decreases opts@.len() - i,
    {
        proof {
            assert(opts@.take(i + 1).drop_last() =~= opts@.take(i as int));
        }
        let name = opts.name_at(i);
        let value = opts.value_at(i);
        if !value.as_str().is_empty() {
            let ghost parts = head + option_pairs(opts@.take(i as int));
            let ghost pair = query_pair(name@, value@);
            q.append("&");
            q.append(urlencoding(name.as_str()).as_str());
            q.append("=");
            q.append(urlencoding(value.as_str()).as_str());
            proof {
                assert(head + option_pairs(opts@.take(i + 1)) =~= parts.push(pair));
                assert(parts.push(pair).drop_last() =~= parts);
                assert(q@ =~= join_query(parts) + "&"@ + pair);
            }
        } else {
            assert(head + option_pairs(opts@.take(i + 1)) =~= head + option_pairs(opts@.take(i as int)));
        }
        i = i + 1;
    }
    assert(opts@.take(i as int) =~= opts@);
    q
}

impl Client {
    /// A client of the default server with the stored key.
    pub fn new(config: &Config) -> (c: Client)
        ensures
            c.base_url@ == DEFAULT_BASE_URL@,
            c.api_key@ == config@.api_key,
    {
        Client { base_url: copy_str(DEFAULT_BASE_URL), api_key: crate::config::get_api_key(config) }
    }

    /// A client of `base_url` without a key.
    pub fn with_base_url(base_url: &str) -> (c: Client)
        ensures
            c.base_url@ == base_url@,
            c.api_key@ == Seq::<char>::empty(),
    {
        Client { base_url: copy_str(base_url), api_key: String::new() }
    }

    /// A client of `base_url` with `api_key`.
    pub fn with_base_url_and_key(base_url: &str, api_key: &str) -> (c: Client)
        ensures
            c.base_url@ == base_url@,
            c.api_key@ == api_key@,
    {
        Client { base_url: copy_str(base_url), api_key: copy_str(api_key) }
    }

    /// The request `method path`, with the standard headers and no body.
    pub fn request(&self, method: Method, path: &str) -> (r: Request)
        ensures
            is_api_request(r, *self, method, path@, None),
    {
        let url = concat3(self.base_url.as_str(), "/api/v1", path);
        let mut headers: Vec<(String, String)> = Vec::new();
        headers.push(header("Content-Type", copy_str("application/json")));
        if !self.api_key.as_str().is_empty() {
            let mut token = String::from_str("Token ");
            token.append(self.api_key.as_str());
            headers.push(header("Authorization", token));
        }
        proof {
            assert(entries_view(headers@) =~= standard_headers(self.api_key@));
        }
        Request { method, url, headers, body: Body::Empty }
    }

    fn request_with_body(&self, method: Method, path: &str, body: String) -> (r: Request)
        ensures
            is_api_request(r, *self, method, path@, Some(body@)),
    {
        let mut r = self.request(method, path);
        r.body = Body::Text(body);
        r
    }

    /// The current user: `GET /users/me/`.
    pub fn whoami(&self) -> (r: Request)
        ensures
            is_api_request(r, *self, Method::Get, "/users/me/"@, None),
    {
        self.request(Method::Get, "/users/me/")
    }

    /// Public search: `GET /search/?q=<query, encoded>`.
    pub fn search(&self, query: &str) -> (r: Request)
        ensures
            is_api_request(r, *self, Method::Get, "/search/?q="@ + encode_component(query@), None),
    {
        let mut path = String::from_str("/search/?q=");
        path.append(urlencoding(query).as_str());
        self.request(Method::Get, path.as_str())
    }

    /// The user's GIFs, filtered by repository when `repo` is not empty:
    /// `GET /gifs/me/` or `GET /gifs/me/?repo=<repo, encoded>`.
    pub fn list_gifs(&self, repo: &str) -> (r: Request)
        ensures
            repo@.len() == 0 ==> is_api_request(r, *self, Method::Get, "/gifs/me/"@, None),
            repo@.len() > 0 ==> is_api_request(r, *self, Method::Get, "/gifs/me/?repo="@ + encode_component(repo@), None),
    {
        if repo.is_empty() {
            self.request(Method::Get, "/gifs/me/")
        } else {
            let mut path = String::from_str("/gifs/me/?repo=");
            path.append(urlencoding(repo).as_str());
            self.request(Method::Get, path.as_str())
        }
    }

    /// One GIF: `GET /gifs/<id>/`.
    pub fn get_gif(&self, gif_id: &str) -> (r: Request)
        ensures
            is_api_request(r, *self, Method::Get, "/gifs/"@ + gif_id@ + "/"@, None),
    {
        let path = concat3("/gifs/", gif_id, "/");
        self.request(Method::Get, path.as_str())
    }

    /// Changes a GIF's metadata: `PATCH /gifs/<id>/` with the fields as a
    /// JSON object of strings.
    pub fn update_gif(&self, gif_id: &str, fields: &Params) -> (r: Request)
        ensures
            is_api_request(r, *self, Method::Patch, "/gifs/"@ + gif_id@ + "/"@, Some(text_fields_json(fields@))),
    {
        let mut members: Vec<(String, JsonScalar)> = Vec::new();
        let mut i: usize = 0;
        while i < fields.len()
            invariant
                i <= fields@.len(),
                members@.len() == i,
                scalar_entries_view(members@) == text_members(fields@.take(i as int)),
            decreases fields@.len() - i,
        {
            let ghost before = members@;
            let name = fields.name_at(i).clone();
            let value = fields.value_at(i).clone();
            members.push((name, JsonScalar::Text(value)));
            proof {
                let after = scalar_entries_view(members@);
                let want = text_members(fields@.take(i + 1));
                assert(after.len() == want.len());
                assert forall|k: int| 0 <= k < after.len() implies after[k] == want[k] by {
                    if k < i {
                        assert(members@[k] == before[k]);
                        assert(scalar_entries_view(before)[k] == text_members(fields@.take(i as int))[k]);
                    } else {
                        assert(members@[k] == (name, JsonScalar::Text(value)));
                    }
                }
                assert(after =~= want);
            }
            i = i + 1;
        }
        assert(fields@.take(i as int) =~= fields@);
        let body = crate::json::object_text(&members);
        let path = concat3("/gifs/", gif_id, "/");
        self.request_with_body(Method::Patch, path.as_str(), body)
    }

    /// Deletes a GIF: `DELETE /gifs/<id>/`.
    pub fn delete_gif(&self, gif_id: &str) -> (r: Request)
        ensures
            is_api_request(r, *self, Method::Delete, "/gifs/"@ + gif_id@ + "/"@, None),
    {
        let path = concat3("/gifs/", gif_id, "/");
        self.request(Method::Delete, path.as_str())
    }

    /// The badge themes: `GET /themes/badges/`.
    pub fn badge_themes(&self) -> (r: Request)
        ensures
            is_api_request(r, *self, Method::Get, "/themes/badges/"@, None),
    {
        self.request(Method::Get, "/themes/badges/")
    }

    /// The latest released CLI version: `GET /cli/version/`.
    pub fn cli_version(&self) -> (r: Request)
        ensures
            is_api_request(r, *self, Method::Get, "/cli/version/"@, None),
    {
        self.request(Method::Get, "/cli/version/")
    }

    /// Starts a generation job: `POST /gifs/generate/` with the JSON
    /// payload text.
    pub fn generate_tape(&self, payload: &str) -> (r: Request)
        ensures
            is_api_request(r, *self, Method::Post, "/gifs/generate/"@, Some(payload@)),
    {
        self.request_with_body(Method::Post, "/gifs/generate/", copy_str(payload))
    }

    /// A generation job's state: `GET /gifs/generate/<job>/`.
    pub fn generate_status(&self, job_id: &str) -> (r: Request)
        ensures
            is_api_request(r, *self, Method::Get, "/gifs/generate/"@ + job_id@ + "/"@, None),
    {
        let path = concat3("/gifs/generate/", job_id, "/");
        self.request(Method::Get, path.as_str())
    }

    /// Starts a device login: `POST /auth/device/` with body `{}`.
    pub fn device_auth(&self) -> (r: Request)
        ensures
            is_api_request(r, *self, Method::Post, "/auth/device/"@, Some("{}"@)),
    {
        self.request_with_body(Method::Post, "/auth/device/", copy_str("{}"))
    }

    /// Asks whether a device login was approved: `POST` to
    /// `/api/v1/auth/device/token/` with only the JSON content type header
    /// and the body `{"device_code":"<code>"}`, the code written as it is.
    pub fn device_token(&self, device_code: &str) -> (r: Request)
        ensures
            r.method == Method::Post,
            r.url@ == api_url(self.base_url@, "/auth/device/token/"@),
            entries_view(r.headers@) == seq![json_content_type()],
            body_view(&r.body) == Some("{\"device_code\":\""@ + device_code@ + "\"}"@),
    {
        let url = concat3(self.base_url.as_str(), "/api/v1", "/auth/device/token/");
        let mut headers: Vec<(String, String)> = Vec::new();
        headers.push(header("Content-Type", copy_str("application/json")));
        assert(entries_view(headers@) =~= seq![json_content_type()]);
        let body = concat3("{\"device_code\":\"", device_code, "\"}");
        Request { method: Method::Post, url, headers, body: Body::Text(body) }
    }

    /// A terminal-themed badge: `GET /badge-url/?<query>` where the query is
    /// [`badge_query`] of the provider, the package and the options.
    pub fn badge_url(&self, provider: &str, package: &str, opts: &Params) -> (r: Request)
        ensures
            is_api_request(r, *self, Method::Get, "/badge-url/?"@ + badge_query(provider@, package@, opts@), None),
    {
        let query = build_badge_query(provider, package, opts);
        let mut path = String::from_str("/badge-url/?");
        path.append(query.as_str());
        self.request(Method::Get, path.as_str())
    }

    /// The multipart upload of the GIF at `gif_path`: `POST /api/v1/gifs/`
    /// with the key (when there is one), every option with a non-empty
    /// value as a text field except `cast_path`, and the cast file named by
    /// a non-empty `cast_path` option.
    pub fn upload(&self, gif_path: &str, opts: &Params) -> (u: UploadRequest)
        ensures
            u.url@ == api_url(self.base_url@, "/gifs/"@),
            opt_string_view(u.authorization) == (if self.api_key@.len() == 0 {
                None
            } else {
                Some(token_value(self.api_key@))
            }),
            u.gif_path@ == gif_path@,
            entries_view(u.fields@) == upload_fields(opts@),
            opt_string_view(u.cast_path) == cast_path_option(opts@),
            file_name_fits(gif_path@, u.gif_file_name@),
            u.cast_file_name is Some <==> u.cast_path is Some,
            u.cast_path matches Some(p) ==> file_name_fits(p@, u.cast_file_name->0@),
    {
        let url = concat3(self.base_url.as_str(), "/api/v1", "/gifs/");
        let authorization = if self.api_key.as_str().is_empty() {
            None
        } else {
            let mut token = String::from_str("Token ");
            token.append(self.api_key.as_str());
            Some(token)
        };
        let mut fields: Vec<(String, String)> = Vec::new();
        let mut i: usize = 0;
        while i < opts.len()
            invariant
                i <= opts@.len(),
                entries_view(fields@) == upload_fields(opts@.take(i as int)),
            decreases opts@.len() - i,
        {
            proof {
                assert(opts@.take(i + 1).drop_last() =~= opts@.take(i as int));
            }
            let name = opts.name_at(i);
            let value = opts.value_at(i);
            if !value.as_str().is_empty() && !crate::text::str_eq(name.as_str(), "cast_path") {
                fields.push((name.clone(), value.clone()));
                assert(entries_view(fields@) =~= upload_fields(opts@.take(i + 1)));
            }
            i = i + 1;
        }
        assert(opts@.take(i as int) =~= opts@);
        let cast_path = match opts.get("cast_path") {
            Some(p) => if p.as_str().is_empty() {
                None
            } else {
                Some(p.clone())
            },
            None => None,
        };
        let cast_file_name = match &cast_path {
            Some(p) => Some(file_name_or_empty(p.as_str())),
            None => None,
        };
        let gif_file_name = file_name_or_empty(gif_path);
        UploadRequest { url, authorization, gif_path: copy_str(gif_path), gif_file_name, fields, cast_path,
            cast_file_name }
    }
}

/// The message of an error reply: the `error` member of the JSON body
/// when it is a string, else the `detail` member when it is a string, else
/// the whole body text.
pub open spec fn error_message(body: Seq<char>) -> Seq<char> {
    match json_member_string(body, "error"@) {
        Some(m) => m,
        None => match json_member_string(body, "detail"@) {
            Some(m) => m,
            None => body,
        },
    }
}

/// An error reply's message is its `error` string when it has one, else
/// its `detail` string when it has one, else the whole body.
pub proof fn law_error_message(body: Seq<char>)
    ensures
        json_member_string(body, "error"@) matches Some(m) ==> error_message(body) == m,
        json_member_string(body, "error"@) is None ==> (json_member_string(body, "detail"@) matches Some(m)
            ==> error_message(body) == m),
        json_member_string(body, "error"@) is None && json_member_string(body, "detail"@) is None
            ==> error_message(body) == body,
{
}

/// A reply to a JSON API call: an error for status 400 and above, carrying
/// the status and [`error_message`]; otherwise the body, the JSON document
/// of the result (text that is not JSON stands for `null`).
pub fn handle_response(status: u16, body: &str) -> (r: Result<String, ApiError>)
    ensures
        status >= 400 ==> (r matches Err(e) && e.status == status && e.message@ == error_message(body@)),
        status < 400 ==> (r matches Ok(t) && t@ == body@),
{
    if status >= 400 {
        let message = match crate::json::member_string(body, "error") {
            Some(m) => m,
            None => match crate::json::member_string(body, "detail") {
                Some(m) => m,
                None => copy_str(body),
            },
        };
        return Err(ApiError { message, status });
    }
    Ok(copy_str(body))
}

/// The reply to [`Client::delete_gif`]: for status 400 and above an error
/// whose message is the body text and whose status is 400, whatever the
/// status was; otherwise success.
pub fn delete_reply(status: u16, body: &str) -> (r: Result<(), ApiError>)
    ensures
        status >= 400 ==> (r matches Err(e) && e.status == 400 && e.message@ == body@),
        status < 400 ==> r is Ok,
{
    if status >= 400 {
        return Err(ApiError { message: copy_str(body), status: 400 });
    }
    Ok(())
}

/// Why a reply that should hold a map of strings was refused.
#[derive(Debug)]
pub enum ReplyError {
    /// The server answered with an error status; the body is the message.
    Api(ApiError),
    /// The body was not a JSON object of strings; the parser's message.
    Decode(String),
}

impl ReplyError {
    /// The error's text, as the program prints it.
    pub fn to_string(&self) -> (s: String)
        ensures
            match self {
                ReplyError::Api(e) => s@ == api_error_text(e.message@, e.status),
                ReplyError::Decode(m) => s@ == m@,
            },
    {
        match self {
            ReplyError::Api(e) => e.to_string(),
            ReplyError::Decode(m) => m.clone(),
        }
    }
}

/// The reply to [`Client::badge_url`] or [`Client::cli_version`]: for
/// status 400 and above an error with the body text as message; otherwise
/// the body read as a JSON object of strings.
pub fn string_map_reply(status: u16, body: &str) -> (r: Result<Params, ReplyError>)
    ensures
        status >= 400 ==> (r matches Err(ReplyError::Api(e)) && e.status == status && e.message@ == body@),
        status < 400 ==> match json_string_map(body@) {
            Ok(entries) => r matches Ok(p) && p@ == entries,
            Err(m) => r matches Err(ReplyError::Decode(d)) && d@ == m,
        },
{
    if status >= 400 {
        return Err(ReplyError::Api(ApiError { message: copy_str(body), status }));
    }
    match crate::json::string_map(body) {
        Ok(entries) => Ok(Params::from_distinct(entries)),
        Err(m) => Err(ReplyError::Decode(m)),
    }
}

/// The members of a JSON object that are strings, in order.
pub open spec fn string_members(members: Seq<(Seq<char>, Option<Seq<char>>)>) -> ParamsView
    decreases members.len(),
{
    if members.len() == 0 {
        seq![]
    } else {
        let rest = string_members(members.drop_last());
        match members.last().1 {
            Some(t) => rest.push((members.last().0, t)),
            None => rest,
        }
    }
}

/// The embed codes of a GIF document: the string members of its `embed`
/// object, or none when there is no such object.
pub open spec fn embed_codes_of(body: Seq<char>) -> ParamsView {
    match json_member_entries(body, "embed"@) {
        Some(members) => string_members(members),
        None => seq![],
    }
}

proof fn lemma_string_members_present(members: Seq<(Seq<char>, Option<Seq<char>>)>)
    ensures
        string_members(members) == present(members),
    decreases members.len(),
{
    if members.len() > 0 {
        lemma_string_members_present(members.drop_last());
    }
}

/// The embed codes of a GIF are the string members of its `embed` object,
/// each under its own name: a member with a string value is found with that
/// value, and a name that is no string member is not found.
pub proof fn law_embed_codes(body: Seq<char>, name: Seq<char>)
    requires
        json_member_entries(body, "embed"@) matches Some(members) ==> candidates_distinct(members),
    ensures
        json_member_entries(body, "embed"@) is None ==> lookup(embed_codes_of(body), name) is None,
        json_member_entries(body, "embed"@) matches Some(members) ==> (forall|j: int| 0 <= j < members.len()
            && #[trigger] members[j].0 == name ==> lookup(embed_codes_of(body), name) == members[j].1),
        json_member_entries(body, "embed"@) matches Some(members) ==> (!is_candidate(members, name)
            ==> lookup(embed_codes_of(body), name) is None),
{
    match json_member_entries(body, "embed"@) {
        Some(members) => {
            lemma_string_members_present(members);
            lemma_present_lookup(members, name);
        },
        None => {
            assert(!has_name(embed_codes_of(body), name));
        },
    }
}

/// The reply to [`Client::get_gif`], read as embed codes: the error of
/// [`handle_response`] for status 400 and above, otherwise the codes.
pub fn embed_codes_reply(status: u16, body: &str) -> (r: Result<Params, ApiError>)
    ensures
        status >= 400 ==> (r matches Err(e) && e.status == status && e.message@ == error_message(body@)),
        status < 400 ==> (r matches Ok(p) && p@ == embed_codes_of(body@)),
{
    let doc = match handle_response(status, body) {
        Ok(d) => d,
        Err(e) => return Err(e),
    };
    let members = match crate::json::member_entries(doc.as_str(), "embed") {
        Some(m) => m,
        None => {
            let p = Params::new();
            return Ok(p);
        },
    };
    let ghost mv = member_entries_view(members@);
    let ghost names = mv.map_values(|m: (Seq<char>, Option<Seq<char>>)| m.0);
    assert(seq_distinct(names)) by {
        assert forall|a: int, b: int| 0 <= a < b < names.len() implies #[trigger] names[a] != #[trigger] names[b] by {
            assert(names[a] == members@[a].0@ && names[b] == members@[b].0@);
        }
    }
    let mut out: Vec<(String, String)> = Vec::new();
    let mut i: usize = 0;
    while i < members.len()
        invariant
            i <= members@.len(),
            mv == member_entries_view(members@),
            names == mv.map_values(|m: (Seq<char>, Option<Seq<char>>)| m.0),
            seq_distinct(names),
            entries_view(out@) == string_members(mv.take(i as int)),
            names_distinct(entries_view(out@)),
            names_drawn_from(entries_view(out@), names, i as int),
        decreases members@.len() - i,
    {
        proof {
            assert(mv.take(i + 1).drop_last() =~= mv.take(i as int));
            assert(mv[i as int] == (members@[i as int].0@, opt_string_view(members@[i as int].1)));
        }
        let ghost before = entries_view(out@);
        match &members[i].1 {
            Some(t) => {
                out.push((members[i].0.clone(), t.clone()));
                proof {
                    lemma_fill_in_name_order(before, names, i as int, t@);
                    assert(entries_view(out@) =~= before.push((names[i as int], t@)));
                    assert(entries_view(out@) =~= string_members(mv.take(i + 1)));
                }
            },
            None => {
                proof {
                    lemma_fill_in_name_order(before, names, i as int, Seq::empty());
                }
                assert(entries_view(out@) =~= string_members(mv.take(i + 1)));
            },
        }
        i = i + 1;
    }
    proof {
        assert(mv.take(i as int) =~= mv);
    }
    Ok(Params::from_distinct(out))
}

} // verus!
