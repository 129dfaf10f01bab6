//! The decisions of the command-line program: what each command sends,
//! which options it passes, and how it reads what comes back.
use vstd::prelude::*;
use crate::config::{Config, is_logged_in};
use crate::paths::{extension_fits, stem_fits, file_stem_or_empty, with_gif_extension};
use crate::json::{JsonScalar, JsonScalarView, json_member_string, json_object_text,
    scalar_entries_view, opt_string_view};
use crate::params::{Params, ParamsView, lookup, present, opt_str_view, params_of_present, candidates_distinct,
    lemma_present_lookup};
use vstd::string::StringSliceAdditionalSpecFns;
use vstd::utf8::{encode_utf8, decode_utf8, is_char_boundary, encode_utf8_decode_utf8};
use crate::text::{contains_seq, contains_str, copy_str, str_eq, chars_of, string_of_range, push_char,
    trim, trim_bounds, trim_end, CharClass, starts_with, matches_at};

verus! {

/// The version of this client.
pub const VERSION: &'static str = "0.2.0";

/// The notice printed when the server reports a newer client: the
/// `latest` entry of the version reply, when it is set and differs from
/// [`VERSION`].
pub open spec fn update_notice_of(versions: ParamsView) -> Option<Seq<char>> {
    match lookup(versions, "latest"@) {
        Some(latest) => if latest.len() > 0 && latest != VERSION@ {
            Some("Update available: "@ + VERSION@ + " \u{2192} "@ + latest + ". Run: cargo install agentgif"@)
        } else {
            None
        },
        None => None,
    }
}

/// See [`update_notice_of`].
pub fn update_notice(versions: &Params) -> (notice: Option<String>)
    ensures
        opt_string_view(notice) == update_notice_of(versions@),
{
    match versions.get("latest") {
        Some(latest) => {
            if !latest.as_str().is_empty() && !str_eq(latest.as_str(), VERSION) {
                let mut s = String::from_str("Update available: ");
                s.append(VERSION);
                s.append(" \u{2192} ");
                s.append(latest.as_str());
                s.append(". Run: cargo install agentgif");
                Some(s)
            } else {
                None
            }
        },
        None => None,
    }
}

/// The server's `latest` version is announced exactly when it is set and
/// differs from this client's, and the notice names both versions.
pub proof fn law_update_notice(versions: ParamsView)
    ensures
        update_notice_of(versions) is Some <==> (lookup(versions, "latest"@) matches Some(l) && l.len() > 0
            && l != VERSION@),
        update_notice_of(versions) is Some ==> update_notice_of(versions) == Some("Update available: "@ + VERSION@
            + " \u{2192} "@ + lookup(versions, "latest"@)->0 + ". Run: cargo install agentgif"@),
{
}

/// Commands that need a login refuse to run without a stored key.
pub fn require_auth(config: &Config) -> (r: Result<(), String>)
    ensures
        r is Ok <==> is_logged_in(config@),
        r matches Err(m) ==> m@ == "Not logged in. Run: agentgif login"@,
{
    if config.api_key.as_str().is_empty() {
        Err(copy_str("Not logged in. Run: agentgif login"))
    } else {
        Ok(())
    }
}

/// The kind of a generation source, told by its URL.
pub open spec fn source_type_of(url: Seq<char>) -> Seq<char> {
    if contains_seq(url, "github.com"@) {
        "github"@
    } else if contains_seq(url, "pypi.org"@) {
        "pypi"@
    } else if contains_seq(url, "npmjs.com"@) {
        "npm"@
    } else {
        ""@
    }
}

/// The kind of a source names a host that its URL contains: `github` for
/// `github.com`, else `pypi` for `pypi.org`, else `npm` for `npmjs.com`,
/// else none.
pub proof fn law_source_type(url: Seq<char>)
    ensures
        contains_seq(url, "github.com"@) ==> source_type_of(url) == "github"@,
        !contains_seq(url, "github.com"@) && contains_seq(url, "pypi.org"@) ==> source_type_of(url) == "pypi"@,
        !contains_seq(url, "github.com"@) && !contains_seq(url, "pypi.org"@) && contains_seq(url, "npmjs.com"@)
            ==> source_type_of(url) == "npm"@,
        !contains_seq(url, "github.com"@) && !contains_seq(url, "pypi.org"@) && !contains_seq(url, "npmjs.com"@)
            ==> source_type_of(url) == ""@,
{
}

/// See [`source_type_of`].
pub fn detect_source_type(url: &str) -> (kind: &'static str)
    ensures
        kind@ == source_type_of(url@),
{
    if contains_str(url, "github.com") {
        "github"
    } else if contains_str(url, "pypi.org") {
        "pypi"
    } else if contains_str(url, "npmjs.com") {
        "npm"
    } else {
        ""
    }
}

/// The message when `generate` gets no source.
pub open spec fn no_source_message() -> Seq<char> {
    "Provide a source URL, --pypi <package>, or --npm <package>"@
}

/// The source URL and its kind for `generate`: a PyPI package first, then
/// an npm package, then a URL whose kind is detected.
pub fn resolve_source(source: Option<&str>, pypi: Option<&str>, npm: Option<&str>) -> (r: Result<(String, String), String>)
    ensures
        pypi matches Some(pkg) ==> (r matches Ok(p) && p.0@ == "https://pypi.org/project/"@ + pkg@ + "/"@ && p.1@ == "pypi"@),
        pypi is None ==> (npm matches Some(pkg) ==> (r matches Ok(p) && p.0@ == "https://www.npmjs.com/package/"@ + pkg@ && p.1@ == "npm"@)),
        pypi is None && npm is None ==> (source matches Some(url) ==> (r matches Ok(p) && p.0@ == url@ && p.1@ == source_type_of(url@))),
        pypi is None && npm is None && source is None ==> (r matches Err(m) && m@ == no_source_message()),
{
    if let Some(pkg) = pypi {
        let mut url = String::from_str("https://pypi.org/project/");
        url.append(pkg);
        url.append("/");
        Ok((url, copy_str("pypi")))
    } else if let Some(pkg) = npm {
        let mut url = String::from_str("https://www.npmjs.com/package/");
        url.append(pkg);
        Ok((url, copy_str("npm")))
    } else if let Some(url) = source {
        let kind = detect_source_type(url);
        Ok((copy_str(url), copy_str(kind)))
    } else {
        Err(copy_str("Provide a source URL, --pypi <package>, or --npm <package>"))
    }
}

/// The members of a generation request: the source URL, the number of GIFs
/// to make, and the source kind when it is known.
pub open spec fn generate_members(source_url: Seq<char>, source_type: Seq<char>, max_gifs: u32) -> Seq<(Seq<char>, JsonScalarView)> {
    let base = seq![("source_url"@, JsonScalarView::Text(source_url)), ("max_gifs"@, JsonScalarView::Number(max_gifs as u64))];
    if source_type.len() > 0 {
        base.push(("source_type"@, JsonScalarView::Text(source_type)))
    } else {
        base
    }
}

/// The JSON payload of a generation request.
pub fn generate_payload(source_url: &str, source_type: &str, max_gifs: u32) -> (payload: String)
    ensures
        payload@ == json_object_text(generate_members(source_url@, source_type@, max_gifs)),
{
    let mut members: Vec<(String, JsonScalar)> = Vec::new();
    members.push((copy_str("source_url"), JsonScalar::Text(copy_str(source_url))));
    members.push((copy_str("max_gifs"), JsonScalar::Number(max_gifs as u64)));
    if !source_type.is_empty() {
        members.push((copy_str("source_type"), JsonScalar::Text(copy_str(source_type))));
    }
    assert(scalar_entries_view(members@) =~= generate_members(source_url@, source_type@, max_gifs));
    crate::json::object_text(&members)
}

/// A generation request asks for exactly what it was given: one
/// `source_url` member holding the source URL, one `max_gifs` member
/// holding the requested maximum, a `source_type` member exactly when the
/// kind is known, holding it, and no other member.
pub proof fn law_generate_members(source_url: Seq<char>, source_type: Seq<char>, max_gifs: u32)
    ensures
        ({
            let m = generate_members(source_url, source_type, max_gifs);
            &&& exists|i: int| 0 <= i < m.len() && #[trigger] m[i] == ("source_url"@, JsonScalarView::Text(source_url))
            &&& exists|i: int| 0 <= i < m.len() && #[trigger] m[i] == ("max_gifs"@, JsonScalarView::Number(max_gifs as u64))
            &&& forall|i: int| 0 <= i < m.len() && #[trigger] m[i].0 == "source_url"@ ==> m[i].1 == JsonScalarView::Text(source_url)
            &&& forall|i: int| 0 <= i < m.len() && #[trigger] m[i].0 == "max_gifs"@ ==> m[i].1 == JsonScalarView::Number(max_gifs as u64)
            &&& forall|i: int| 0 <= i < m.len() && #[trigger] m[i].0 == "source_type"@ ==> m[i].1 == JsonScalarView::Text(source_type)
            &&& (exists|i: int| 0 <= i < m.len() && #[trigger] m[i].0 == "source_type"@) <==> source_type.len() > 0
            &&& forall|i: int| 0 <= i < m.len() ==> #[trigger] m[i].0 == "source_url"@ || m[i].0 == "max_gifs"@
                || m[i].0 == "source_type"@
        }),
{
    reveal_strlit("source_url");
    reveal_strlit("max_gifs");
    reveal_strlit("source_type");
    let m = generate_members(source_url, source_type, max_gifs);
    assert("source_url"@[1] != "max_gifs"@[1] && "source_url"@.len() != "source_type"@.len()
        && "max_gifs"@[0] != "source_type"@[0]);
    assert(m[0] == ("source_url"@, JsonScalarView::Text(source_url)));
    assert(m[1] == ("max_gifs"@, JsonScalarView::Number(max_gifs as u64)));
    if source_type.len() > 0 {
        assert(m[2].0 == "source_type"@);
    }
}

/// The options of an upload, in order: title, description, command,
/// tags, the asciicast path (`cast_path`), theme (each when given), the
/// visibility (`unlisted` or `public`), and the detected repository
/// (`repo_slug`) when there is one.
pub open spec fn upload_candidates(
    title: Option<Seq<char>>,
    description: Option<Seq<char>>,
    command: Option<Seq<char>>,
    tags: Option<Seq<char>>,
    cast: Option<Seq<char>>,
    theme: Option<Seq<char>>,
    unlisted: bool,
    repo: Option<Seq<char>>,
) -> Seq<(Seq<char>, Option<Seq<char>>)> {
    seq![
        ("title"@, title),
        ("description"@, description),
        ("command"@, command),
        ("tags"@, tags),
        ("cast_path"@, cast),
        ("theme"@, theme),
        ("visibility"@, Some(if unlisted { "unlisted"@ } else { "public"@ })),
        ("repo_slug"@, repo),
    ]
}

/// See [`upload_candidates`].
pub fn upload_options(
    title: Option<&str>,
    description: Option<&str>,
    command: Option<&str>,
    tags: Option<&str>,
    cast: Option<&str>,
    theme: Option<&str>,
    unlisted: bool,
    repo: Option<&str>,
) -> (opts: Params)
    ensures
        opts@ == present(upload_candidates(
            opt_str_view(title),
            opt_str_view(description),
            opt_str_view(command),
            opt_str_view(tags),
            opt_str_view(cast),
            opt_str_view(theme),
            unlisted,
            opt_str_view(repo),
        )),
        lookup(opts@, "title"@) == opt_str_view(title),
        lookup(opts@, "description"@) == opt_str_view(description),
        lookup(opts@, "command"@) == opt_str_view(command),
        lookup(opts@, "tags"@) == opt_str_view(tags),
        lookup(opts@, "cast_path"@) == opt_str_view(cast),
        lookup(opts@, "theme"@) == opt_str_view(theme),
        lookup(opts@, "visibility"@) == Some(if unlisted { "unlisted"@ } else { "public"@ }),
        lookup(opts@, "repo_slug"@) == opt_str_view(repo),
{
    proof {
        law_upload_options_by_name(opt_str_view(title), opt_str_view(description), opt_str_view(command),
            opt_str_view(tags), opt_str_view(cast), opt_str_view(theme), unlisted, opt_str_view(repo));
    }
    let visibility = if unlisted { "unlisted" } else { "public" };
    let cands: Vec<(&str, Option<&str>)> = vec![
        ("title", title),
        ("description", description),
        ("command", command),
        ("tags", tags),
        ("cast_path", cast),
        ("theme", theme),
        ("visibility", Some(visibility)),
        ("repo_slug", repo),
    ];
    proof {
        reveal_strlit("title");
        reveal_strlit("description");
        reveal_strlit("command");
        reveal_strlit("tags");
        reveal_strlit("cast_path");
        reveal_strlit("theme");
        reveal_strlit("visibility");
        reveal_strlit("repo_slug");
        assert forall|a: int, b: int| 0 <= a < b < cands@.len() implies #[trigger] cands@[a].0@ != #[trigger] cands@[b].0@ by {
            assert(cands@[a].0@[0] != cands@[b].0@[0] || cands@[a].0@.len() != cands@[b].0@.len()
                || cands@[a].0@[1] != cands@[b].0@[1]);
        }
        assert(crate::params::candidates_view(cands@) =~= upload_candidates(
            opt_str_view(title),
            opt_str_view(description),
            opt_str_view(command),
            opt_str_view(tags),
            opt_str_view(cast),
            opt_str_view(theme),
            unlisted,
            opt_str_view(repo),
        ));
    }
    params_of_present(&cands)
}

/// Each upload option is sent under its own name: every option that is
/// given is found under its name with the given text, one that is not given
/// is not sent, and the visibility is `unlisted` or `public` as asked.
pub proof fn law_upload_options_by_name(
    title: Option<Seq<char>>,
    description: Option<Seq<char>>,
    command: Option<Seq<char>>,
    tags: Option<Seq<char>>,
    cast: Option<Seq<char>>,
    theme: Option<Seq<char>>,
    unlisted: bool,
    repo: Option<Seq<char>>,
)
    ensures
        ({
            let opts = present(upload_candidates(title, description, command, tags, cast, theme, unlisted, repo));
            &&& lookup(opts, "title"@) == title
            &&& lookup(opts, "description"@) == description
            &&& lookup(opts, "command"@) == command
            &&& lookup(opts, "tags"@) == tags
            &&& lookup(opts, "cast_path"@) == cast
            &&& lookup(opts, "theme"@) == theme
            &&& lookup(opts, "visibility"@) == Some(if unlisted { "unlisted"@ } else { "public"@ })
            &&& lookup(opts, "repo_slug"@) == repo
        }),
{
    let c = upload_candidates(title, description, command, tags, cast, theme, unlisted, repo);
    reveal_strlit("title");
    reveal_strlit("description");
    reveal_strlit("command");
    reveal_strlit("tags");
    reveal_strlit("cast_path");
    reveal_strlit("theme");
    reveal_strlit("visibility");
    reveal_strlit("repo_slug");
    assert(candidates_distinct(c)) by {
        assert forall|a: int, b: int| 0 <= a < b < c.len() implies #[trigger] c[a].0 != #[trigger] c[b].0 by {
            assert(c[a].0[0] != c[b].0[0] || c[a].0.len() != c[b].0.len() || c[a].0[1] != c[b].0[1]);
        }
    }
    lemma_present_lookup(c, c[0].0);
    lemma_present_lookup(c, c[1].0);
    lemma_present_lookup(c, c[2].0);
    lemma_present_lookup(c, c[3].0);
    lemma_present_lookup(c, c[4].0);
    lemma_present_lookup(c, c[5].0);
    lemma_present_lookup(c, c[6].0);
    lemma_present_lookup(c, c[7].0);
}

/// The options of the upload that follows a recording: the title, public
/// visibility, the theme when given, and the detected repository when
/// there is one.
pub open spec fn record_candidates(title: Seq<char>, theme: Option<Seq<char>>, repo: Option<Seq<char>>) -> Seq<(Seq<char>, Option<Seq<char>>)> {
    seq![("title"@, Some(title)), ("visibility"@, Some("public"@)), ("theme"@, theme), ("repo_slug"@, repo)]
}

/// See [`record_candidates`].
pub fn record_options(title: &str, theme: Option<&str>, repo: Option<&str>) -> (opts: Params)
    ensures
        opts@ == present(record_candidates(title@, opt_str_view(theme), opt_str_view(repo))),
        lookup(opts@, "title"@) == Some(title@),
        lookup(opts@, "visibility"@) == Some("public"@),
        lookup(opts@, "theme"@) == opt_str_view(theme),
        lookup(opts@, "repo_slug"@) == opt_str_view(repo),
{
    proof {
        law_record_options_by_name(title@, opt_str_view(theme), opt_str_view(repo));
    }
    let cands: Vec<(&str, Option<&str>)> = vec![
        ("title", Some(title)),
        ("visibility", Some("public")),
        ("theme", theme),
        ("repo_slug", repo),
    ];
    proof {
        reveal_strlit("title");
        reveal_strlit("visibility");
        reveal_strlit("theme");
        reveal_strlit("repo_slug");
        assert forall|a: int, b: int| 0 <= a < b < cands@.len() implies #[trigger] cands@[a].0@ != #[trigger] cands@[b].0@ by {
            assert(cands@[a].0@[0] != cands@[b].0@[0] || cands@[a].0@[1] != cands@[b].0@[1]);
        }
        assert(crate::params::candidates_view(cands@) =~= record_candidates(title@, opt_str_view(theme), opt_str_view(repo)));
    }
    params_of_present(&cands)
}

/// The upload after a recording sends the title and public visibility,
/// and the theme and repository each under its own name when given.
pub proof fn law_record_options_by_name(title: Seq<char>, theme: Option<Seq<char>>, repo: Option<Seq<char>>)
    ensures
        ({
            let opts = present(record_candidates(title, theme, repo));
            &&& lookup(opts, "title"@) == Some(title)
            &&& lookup(opts, "visibility"@) == Some("public"@)
            &&& lookup(opts, "theme"@) == theme
            &&& lookup(opts, "repo_slug"@) == repo
        }),
{
    let c = record_candidates(title, theme, repo);
    reveal_strlit("title");
    reveal_strlit("visibility");
    reveal_strlit("theme");
    reveal_strlit("repo_slug");
    assert(candidates_distinct(c)) by {
        assert forall|a: int, b: int| 0 <= a < b < c.len() implies #[trigger] c[a].0 != #[trigger] c[b].0 by {
            assert(c[a].0[0] != c[b].0[0] || c[a].0[1] != c[b].0[1]);
        }
    }
    lemma_present_lookup(c, c[0].0);
    lemma_present_lookup(c, c[1].0);
    lemma_present_lookup(c, c[2].0);
    lemma_present_lookup(c, c[3].0);
}

/// The fields an update may change, each when given.
pub open spec fn update_candidates(
    title: Option<Seq<char>>,
    description: Option<Seq<char>>,
    command: Option<Seq<char>>,
    tags: Option<Seq<char>>,
) -> Seq<(Seq<char>, Option<Seq<char>>)> {
    seq![("title"@, title), ("description"@, description), ("command"@, command), ("tags"@, tags)]
}

pub open spec fn no_update_fields_message() -> Seq<char> {
    "No fields to update. Use --title, --description, --command, or --tags."@
}

/// The fields of an update; refused when none is given.
pub fn update_fields(
    title: Option<&str>,
    description: Option<&str>,
    command: Option<&str>,
    tags: Option<&str>,
) -> (r: Result<Params, String>)
    ensures
        match r {
            Ok(fields) => fields@ == present(update_candidates(
                opt_str_view(title),
                opt_str_view(description),
                opt_str_view(command),
                opt_str_view(tags),
            )) && fields@.len() > 0,
            Err(m) => m@ == no_update_fields_message() && title is None && description is None
                && command is None && tags is None,
        },
        (r is Err) <==> (title is None && description is None && command is None && tags is None),
        r matches Ok(fields) ==> lookup(fields@, "title"@) == opt_str_view(title)
            && lookup(fields@, "description"@) == opt_str_view(description)
            && lookup(fields@, "command"@) == opt_str_view(command)
            && lookup(fields@, "tags"@) == opt_str_view(tags),
{
    proof {
        law_update_fields_by_name(opt_str_view(title), opt_str_view(description), opt_str_view(command),
            opt_str_view(tags));
    }
    let cands: Vec<(&str, Option<&str>)> = vec![
        ("title", title),
        ("description", description),
        ("command", command),
        ("tags", tags),
    ];
    let ghost cv = update_candidates(opt_str_view(title), opt_str_view(description), opt_str_view(command), opt_str_view(tags));
    proof {
        reveal_strlit("title");
        reveal_strlit("description");
        reveal_strlit("command");
        reveal_strlit("tags");
        assert forall|a: int, b: int| 0 <= a < b < cands@.len() implies #[trigger] cands@[a].0@ != #[trigger] cands@[b].0@ by {
            assert(cands@[a].0@[0] != cands@[b].0@[0] || cands@[a].0@.len() != cands@[b].0@.len());
        }
        assert(crate::params::candidates_view(cands@) =~= cv);
        reveal_with_fuel(present, 5);
    }
    let fields = params_of_present(&cands);
    if fields.is_empty() {
        Err(copy_str("No fields to update. Use --title, --description, --command, or --tags."))
    } else {
        Ok(fields)
    }
}

/// Each update field is sent under its own name: every field that is
/// given is found under its name with the given text, and one that is not
/// given is not sent.
pub proof fn law_update_fields_by_name(
    title: Option<Seq<char>>,
    description: Option<Seq<char>>,
    command: Option<Seq<char>>,
    tags: Option<Seq<char>>,
)
    ensures
        ({
            let fields = present(update_candidates(title, description, command, tags));
            &&& lookup(fields, "title"@) == title
            &&& lookup(fields, "description"@) == description
            &&& lookup(fields, "command"@) == command
            &&& lookup(fields, "tags"@) == tags
        }),
{
    let c = update_candidates(title, description, command, tags);
    reveal_strlit("title");
    reveal_strlit("description");
    reveal_strlit("command");
    reveal_strlit("tags");
    assert(candidates_distinct(c)) by {
        assert forall|a: int, b: int| 0 <= a < b < c.len() implies #[trigger] c[a].0 != #[trigger] c[b].0 by {
            assert(c[a].0[0] != c[b].0[0] || c[a].0.len() != c[b].0.len());
        }
    }
    lemma_present_lookup(c, c[0].0);
    lemma_present_lookup(c, c[1].0);
    lemma_present_lookup(c, c[2].0);
    lemma_present_lookup(c, c[3].0);
}

/// The options of a badge: the metric, then the theme and the style when
/// given.
pub open spec fn badge_candidates(metric: Seq<char>, theme: Option<Seq<char>>, style: Option<Seq<char>>) -> Seq<(Seq<char>, Option<Seq<char>>)> {
    seq![("metric"@, Some(metric)), ("theme"@, theme), ("style"@, style)]
}

/// See [`badge_candidates`].
pub fn badge_options(metric: &str, theme: Option<&str>, style: Option<&str>) -> (opts: Params)
    ensures
        opts@ == present(badge_candidates(metric@, opt_str_view(theme), opt_str_view(style))),
        lookup(opts@, "metric"@) == Some(metric@),
        lookup(opts@, "theme"@) == opt_str_view(theme),
        lookup(opts@, "style"@) == opt_str_view(style),
{
    proof {
        law_badge_options_by_name(metric@, opt_str_view(theme), opt_str_view(style));
    }
    let cands: Vec<(&str, Option<&str>)> = vec![("metric", Some(metric)), ("theme", theme), ("style", style)];
    proof {
        reveal_strlit("metric");
        reveal_strlit("theme");
        reveal_strlit("style");
        assert forall|a: int, b: int| 0 <= a < b < cands@.len() implies #[trigger] cands@[a].0@ != #[trigger] cands@[b].0@ by {
            assert(cands@[a].0@[0] != cands@[b].0@[0]);
        }
        assert(crate::params::candidates_view(cands@) =~= badge_candidates(metric@, opt_str_view(theme), opt_str_view(style)));
    }
    params_of_present(&cands)
}

/// A badge asks for the metric, and the theme and style each under its
/// own name when given.
pub proof fn law_badge_options_by_name(metric: Seq<char>, theme: Option<Seq<char>>, style: Option<Seq<char>>)
    ensures
        ({
            let opts = present(badge_candidates(metric, theme, style));
            &&& lookup(opts, "metric"@) == Some(metric)
            &&& lookup(opts, "theme"@) == theme
            &&& lookup(opts, "style"@) == style
        }),
{
    let c = badge_candidates(metric, theme, style);
    reveal_strlit("metric");
    reveal_strlit("theme");
    reveal_strlit("style");
    assert(candidates_distinct(c)) by {
        assert forall|a: int, b: int| 0 <= a < b < c.len() implies #[trigger] c[a].0 != #[trigger] c[b].0 by {
            assert(c[a].0[0] != c[b].0[0]);
        }
    }
    lemma_present_lookup(c, c[0].0);
    lemma_present_lookup(c, c[1].0);
    lemma_present_lookup(c, c[2].0);
}

/// The value stored under `name`, or the empty text.
pub open spec fn value_or_empty(data: ParamsView, name: Seq<char>) -> Seq<char> {
    match lookup(data, name) {
        Some(v) => v,
        None => seq![],
    }
}

pub open spec fn unknown_format_message(format: Seq<char>) -> Seq<char> {
    "Unknown format: "@ + format
}

/// What `badge url` prints for a format: all four codes with headings,
/// or one code; an unknown format is refused.
pub open spec fn badge_lines(data: ParamsView, format: Seq<char>) -> Result<Seq<Seq<char>>, Seq<char>> {
    if format == "all"@ {
        Ok(seq![
            "URL:  "@ + value_or_empty(data, "url"@),
            "Markdown:\n"@ + value_or_empty(data, "markdown"@),
            "HTML:\n"@ + value_or_empty(data, "html"@),
            "Image:\n"@ + value_or_empty(data, "img"@),
        ])
    } else if format == "url"@ {
        Ok(seq![value_or_empty(data, "url"@)])
    } else if format == "md"@ {
        Ok(seq![value_or_empty(data, "markdown"@)])
    } else if format == "html"@ {
        Ok(seq![value_or_empty(data, "html"@)])
    } else if format == "img"@ {
        Ok(seq![value_or_empty(data, "img"@)])
    } else {
        Err(unknown_format_message(format))
    }
}

pub open spec fn lines_view(v: Seq<String>) -> Seq<Seq<char>> {
    v.map_values(|s: String| s@)
}

fn labelled(label: &str, data: &Params, name: &str) -> (s: String)
    ensures
        s@ == label@ + value_or_empty(data@, name@),
{
    let mut s = String::from_str(label);
    match data.get(name) {
        Some(v) => s.append(v.as_str()),
        None => {},
    }
    s
}

/// See [`badge_lines`].
pub fn badge_output(data: &Params, format: &str) -> (r: Result<Vec<String>, String>)
    ensures
        match r {
            Ok(lines) => badge_lines(data@, format@) == Ok::<Seq<Seq<char>>, Seq<char>>(lines_view(lines@)),
            Err(m) => badge_lines(data@, format@) == Err::<Seq<Seq<char>>, Seq<char>>(m@),
        },
        format@ == "url"@ ==> (r matches Ok(lines) && lines_view(lines@) == seq![value_or_empty(data@, "url"@)]),
        format@ == "md"@ ==> (r matches Ok(lines) && lines_view(lines@) == seq![value_or_empty(data@, "markdown"@)]),
        format@ == "html"@ ==> (r matches Ok(lines) && lines_view(lines@) == seq![value_or_empty(data@, "html"@)]),
        format@ == "img"@ ==> (r matches Ok(lines) && lines_view(lines@) == seq![value_or_empty(data@, "img"@)]),
{
    proof {
        law_badge_lines_by_format(data@, format@);
    }
    let mut lines: Vec<String> = Vec::new();
    if str_eq(format, "all") {
        lines.push(labelled("URL:  ", data, "url"));
        lines.push(labelled("Markdown:\n", data, "markdown"));
        lines.push(labelled("HTML:\n", data, "html"));
        lines.push(labelled("Image:\n", data, "img"));
    } else if str_eq(format, "url") {
        lines.push(labelled("", data, "url"));
    } else if str_eq(format, "md") {
        lines.push(labelled("", data, "markdown"));
    } else if str_eq(format, "html") {
        lines.push(labelled("", data, "html"));
    } else if str_eq(format, "img") {
        lines.push(labelled("", data, "img"));
    } else {
        let mut m = String::from_str("Unknown format: ");
        m.append(format);
        return Err(m);
    }
    proof {
        reveal_strlit("");
        assert(""@ + value_or_empty(data@, "url"@) =~= value_or_empty(data@, "url"@));
        assert(""@ + value_or_empty(data@, "markdown"@) =~= value_or_empty(data@, "markdown"@));
        assert(""@ + value_or_empty(data@, "html"@) =~= value_or_empty(data@, "html"@));
        assert(""@ + value_or_empty(data@, "img"@) =~= value_or_empty(data@, "img"@));
        assert(lines_view(lines@) =~= badge_lines(data@, format@)->Ok_0);
    }
    Ok(lines)
}

/// A single-code badge format prints exactly the reply's entry of that
/// kind (empty when the reply has none): `url` its `url`, `md` its
/// `markdown`, `html` its `html` and `img` its `img`; and what it prints
/// depends on no other entry of the reply.
pub proof fn law_badge_lines_by_format(data: ParamsView, format: Seq<char>)
    ensures
        format == "url"@ ==> badge_lines(data, format) == Ok::<Seq<Seq<char>>, Seq<char>>(seq![value_or_empty(data, "url"@)]),
        format == "md"@ ==> badge_lines(data, format) == Ok::<Seq<Seq<char>>, Seq<char>>(seq![value_or_empty(data, "markdown"@)]),
        format == "html"@ ==> badge_lines(data, format) == Ok::<Seq<Seq<char>>, Seq<char>>(seq![value_or_empty(data, "html"@)]),
        format == "img"@ ==> badge_lines(data, format) == Ok::<Seq<Seq<char>>, Seq<char>>(seq![value_or_empty(data, "img"@)]),
{
    reveal_strlit("all");
    reveal_strlit("url");
    reveal_strlit("md");
    reveal_strlit("html");
    reveal_strlit("img");
    assert("url"@[0] != "all"@[0] && "img"@[0] != "all"@[0] && "img"@[0] != "url"@[0]);
    assert("md"@.len() == 2 && "all"@.len() == 3 && "url"@.len() == 3 && "img"@.len() == 3 && "html"@.len() == 4);
}

/// Two replies with the same entry for a single-code format print the same
/// thing for it.
pub proof fn law_badge_lines_read_one_entry(data1: ParamsView, data2: ParamsView, format: Seq<char>, name: Seq<char>)
    requires
        (format == "url"@ && name == "url"@) || (format == "md"@ && name == "markdown"@) || (format == "html"@
            && name == "html"@) || (format == "img"@ && name == "img"@),
        lookup(data1, name) == lookup(data2, name),
    ensures
        badge_lines(data1, format) == badge_lines(data2, format),
{
    law_badge_lines_by_format(data1, format);
    law_badge_lines_by_format(data2, format);
}

/// The embed code name a format asks for.
pub open spec fn embed_key(format: Seq<char>) -> Seq<char> {
    if format == "md"@ {
        "markdown"@
    } else {
        format
    }
}

/// One entry of the `embed --format all` listing.
pub open spec fn embed_entry_line(name: Seq<char>, code: Seq<char>) -> Seq<char> {
    name + ":\n"@ + code + "\n"@
}

/// What `embed` prints: every code with its name for `all`, otherwise the
/// code the format names (`md` names `markdown`); a format naming no code
/// is refused.
pub open spec fn embed_lines(codes: ParamsView, format: Seq<char>) -> Result<Seq<Seq<char>>, Seq<char>> {
    if format == "all"@ {
        Ok(Seq::new(codes.len(), |i: int| embed_entry_line(codes[i].0, codes[i].1)))
    } else {
        match lookup(codes, embed_key(format)) {
            Some(code) => Ok(seq![code]),
            None => Err(unknown_format_message(format)),
        }
    }
}

/// `embed` prints the code stored under the name the format gives (`md`
/// gives `markdown`, any other format but `all` gives itself) and nothing
/// else, and refuses a format that names no code; `all` prints every code
/// with its name, in order.
pub proof fn law_embed_lines_by_name(codes: ParamsView, format: Seq<char>)
    ensures
        format != "all"@ && format != "md"@ ==> embed_lines(codes, format) == match lookup(codes, format) {
            Some(code) => Ok::<Seq<Seq<char>>, Seq<char>>(seq![code]),
            None => Err::<Seq<Seq<char>>, Seq<char>>(unknown_format_message(format)),
        },
        format == "md"@ ==> embed_lines(codes, format) == match lookup(codes, "markdown"@) {
            Some(code) => Ok::<Seq<Seq<char>>, Seq<char>>(seq![code]),
            None => Err::<Seq<Seq<char>>, Seq<char>>(unknown_format_message(format)),
        },
        format == "all"@ ==> (embed_lines(codes, format) matches Ok(lines) && lines.len() == codes.len()
            && forall|i: int| 0 <= i < codes.len() ==> #[trigger] lines[i] == codes[i].0 + ":\n"@ + codes[i].1 + "\n"@),
{
    reveal_strlit("all");
    reveal_strlit("md");
    assert("md"@.len() != "all"@.len());
}

/// See [`embed_lines`].
pub fn embed_output(codes: &Params, format: &str) -> (r: Result<Vec<String>, String>)
    ensures
        match r {
            Ok(lines) => embed_lines(codes@, format@) == Ok::<Seq<Seq<char>>, Seq<char>>(lines_view(lines@)),
            Err(m) => embed_lines(codes@, format@) == Err::<Seq<Seq<char>>, Seq<char>>(m@),
        },
        format@ != "all"@ && format@ != "md"@ ==> match lookup(codes@, format@) {
            Some(code) => r matches Ok(lines) && lines_view(lines@) == seq![code],
            None => r matches Err(m) && m@ == unknown_format_message(format@),
        },
        format@ == "md"@ ==> match lookup(codes@, "markdown"@) {
            Some(code) => r matches Ok(lines) && lines_view(lines@) == seq![code],
            None => r matches Err(m) && m@ == unknown_format_message(format@),
        },
{
    proof {
        law_embed_lines_by_name(codes@, format@);
    }
    let mut lines: Vec<String> = Vec::new();
    if str_eq(format, "all") {
        let mut i: usize = 0;
        while i < codes.len()
            invariant
                i <= codes@.len(),
                lines@.len() == i,
                lines_view(lines@) == Seq::new(i as nat, |k: int| embed_entry_line(codes@[k].0, codes@[k].1)),
            decreases codes@.len() - i,
        {
            let mut line = codes.name_at(i).clone();
            line.append(":\n");
            line.append(codes.value_at(i).as_str());
            line.append("\n");
            let ghost before = lines@;
            assert(line@ == embed_entry_line(codes@[i as int].0, codes@[i as int].1));
            lines.push(line);
            proof {
                let want = Seq::new((i + 1) as nat, |k: int| embed_entry_line(codes@[k].0, codes@[k].1));
                assert forall|k: int| 0 <= k < i + 1 implies lines_view(lines@)[k] == want[k] by {
                    if k < i {
                        assert(lines@[k] == before[k]);
                        assert(lines_view(before)[k] == embed_entry_line(codes@[k].0, codes@[k].1));
                    }
                }
                assert(lines_view(lines@) =~= want);
            }
            i = i + 1;
        }
        return Ok(lines);
    }
    let key = if str_eq(format, "md") {
        "markdown"
    } else {
        format
    };
    match codes.get(key) {
        Some(code) => {
            lines.push(code.clone());
            assert(lines_view(lines@) =~= seq![code@]);
            Ok(lines)
        },
        None => {
            let mut m = String::from_str("Unknown format: ");
            m.append(format);
            Err(m)
        },
    }
}

/// What `str::to_lowercase` returns for a text.
pub uninterp spec fn lowercased(s: Seq<char>) -> Seq<char>;

/// The lower-case form of a text (`str::to_lowercase`).  Trusted; the
/// contract only names the result, which depends on the text alone.
#[verifier::external_body]
fn to_lowercase(s: &str) -> (r: String)
    ensures
        r@ == lowercased(s@),
{
    s.to_lowercase()
}

/// Whether an answer to the delete prompt confirms: trimmed and in lower
/// case, it is `y`.
pub open spec fn confirms(answer: Seq<char>) -> bool {
    lowercased(trim(answer, CharClass::Whitespace)) == "y"@
}

/// See [`confirms`].
pub fn confirms_delete(answer: &str) -> (yes: bool)
    ensures
        yes == confirms(answer@),
{
    let trimmed = crate::text::trim_whitespace(answer);
    let lower = to_lowercase(trimmed.as_str());
    str_eq(lower.as_str(), "y")
}

/// The part of `cs` after its last `/` (all of it when there is none).
pub open spec fn after_last_slash(cs: Seq<char>) -> Seq<char>
    decreases cs.len(),
{
    if cs.len() == 0 {
        cs
    } else if cs.last() == '/' {
        seq![]
    } else {
        after_last_slash(cs.drop_last()).push(cs.last())
    }
}

/// `cs` without any number of trailing `.git`.
pub open spec fn strip_git_suffixes(cs: Seq<char>) -> Seq<char>
    decreases cs.len(),
{
    if cs.len() >= 4 && cs.subrange(cs.len() - 4, cs.len() as int) == ".git"@ {
        strip_git_suffixes(cs.subrange(0, cs.len() - 4))
    } else {
        cs
    }
}

/// The repository name in the output of `git remote get-url origin`: the
/// output trimmed, without trailing slashes, its last path segment, without
/// trailing `.git`.
pub open spec fn repo_name_of(remote: Seq<char>) -> Seq<char> {
    strip_git_suffixes(after_last_slash(trim_end(trim(remote, CharClass::Whitespace), CharClass::Exactly('/'))))
}

/// Start `s` of `after_last_slash(cs@[a..b])` in `cs`.
fn last_segment_start(cs: &Vec<char>, a: usize, b: usize) -> (s: usize)
    requires
        a <= b <= cs@.len(),
    ensures
        a <= s <= b,
        cs@.subrange(s as int, b as int) == after_last_slash(cs@.subrange(a as int, b as int)),
{
    let mut s: usize = b;
    while s > a && cs[s - 1] != '/'
        invariant
            a <= s <= b,
            b <= cs@.len(),
            after_last_slash(cs@.subrange(a as int, b as int)) == after_last_slash(cs@.subrange(a as int, s as int))
                + cs@.subrange(s as int, b as int),
        decreases s - a,
    {
        proof {
            let t = cs@.subrange(a as int, s as int);
            assert(t.drop_last() =~= cs@.subrange(a as int, s - 1));
            assert(after_last_slash(t) == after_last_slash(t.drop_last()).push(t.last()));
            assert(after_last_slash(t.drop_last()).push(t.last()) + cs@.subrange(s as int, b as int)
                =~= after_last_slash(t.drop_last()) + cs@.subrange(s - 1, b as int));
        }
        s = s - 1;
    }
    proof {
        let t = cs@.subrange(a as int, s as int);
        assert(after_last_slash(t) =~= seq![]);
        assert(seq![] + cs@.subrange(s as int, b as int) =~= cs@.subrange(s as int, b as int));
    }
    s
}

/// End `e` of `strip_git_suffixes(cs@[s..b])` in `cs`.
fn strip_git_end(cs: &Vec<char>, s: usize, b: usize) -> (e: usize)
    requires
        s <= b <= cs@.len(),
    ensures
        s <= e <= b,
        cs@.subrange(s as int, e as int) == strip_git_suffixes(cs@.subrange(s as int, b as int)),
{
    let dot_git: Vec<char> = vec!['.', 'g', 'i', 't'];
    proof {
        reveal_strlit(".git");
        assert(dot_git@ =~= ".git"@);
    }
    let mut e: usize = b;
    while e - s >= 4 && matches_at(&cs, e - 4, &dot_git)
        invariant
            s <= e <= b,
            b <= cs@.len(),
            dot_git@ == ".git"@,
            dot_git@.len() == 4,
            strip_git_suffixes(cs@.subrange(s as int, b as int)) == strip_git_suffixes(cs@.subrange(s as int, e as int)),
        decreases e - s,
    {
        proof {
            let t = cs@.subrange(s as int, e as int);
            assert(t.subrange(t.len() - 4, t.len() as int) =~= cs@.subrange(e - 4, e as int));
            assert(t.subrange(0, t.len() - 4) =~= cs@.subrange(s as int, e - 4));
            assert(cs@.subrange(e - 4, e as int) == ".git"@);
            assert(t.len() >= 4);
            assert(strip_git_suffixes(t) == strip_git_suffixes(t.subrange(0, t.len() - 4)));
        }
        e = e - 4;
    }
    proof {
        let t = cs@.subrange(s as int, e as int);
        if t.len() >= 4 {
            assert(t.subrange(t.len() - 4, t.len() as int) =~= cs@.subrange(e - 4, e as int));
        }
    }
    e
}

/// See [`repo_name_of`].
pub fn repo_name(remote: &str) -> (name: String)
    ensures
        name@ == repo_name_of(remote@),
{
    let cs = chars_of(remote);
    let (a, b0): (usize, usize) = trim_bounds(&cs, 0, cs.len(), CharClass::Whitespace);
    assert(cs@.subrange(0, cs@.len() as int) =~= cs@);
    let b: usize = crate::text::trim_end_bound(&cs, a, b0, CharClass::Exactly('/'));
    let s: usize = last_segment_start(&cs, a, b);
    let e: usize = strip_git_end(&cs, s, b);
    string_of_range(&cs, s, e)
}

/// A title made from a file stem: `-` and `_` become spaces.
pub open spec fn title_of_stem(stem: Seq<char>) -> Seq<char> {
    stem.map_values(|c: char| if c == '-' || c == '_' { ' ' } else { c })
}

/// A title is its stem with each `-` and `_` turned into a space and every
/// other character kept, in place.
pub proof fn law_title_of_stem(stem: Seq<char>)
    ensures
        title_of_stem(stem).len() == stem.len(),
        forall|i: int| 0 <= i < stem.len() && (stem[i] == '-' || stem[i] == '_') ==> #[trigger] title_of_stem(stem)[i] == ' ',
        forall|i: int| 0 <= i < stem.len() && stem[i] != '-' && stem[i] != '_' ==> #[trigger] title_of_stem(stem)[i] == stem[i],
{
}

/// See [`title_of_stem`].
pub fn title_from_stem(stem: &str) -> (title: String)
    ensures
        title@ == title_of_stem(stem@),
{
    let cs = chars_of(stem);
    let mut title = String::new();
    let mut i: usize = 0;
    while i < cs.len()
        invariant
            i <= cs@.len(),
            cs@ == stem@,
            title@ == title_of_stem(stem@.take(i as int)),
        decreases cs@.len() - i,
    {
        let c = cs[i];
        if c == '-' || c == '_' {
            push_char(&mut title, ' ');
        } else {
            push_char(&mut title, c);
        }
        assert(title@ =~= title_of_stem(stem@.take(i + 1)));
        i = i + 1;
    }
    assert(stem@.take(i as int) =~= stem@);
    title
}

/// End of the line that starts at `k`: the next `\n` at or after `k`, or
/// the end of the text.
pub open spec fn line_end(cs: Seq<char>, k: int) -> int
    decreases cs.len() - k,
{
    if k >= cs.len() {
        cs.len() as int
    } else if cs[k] == '\n' {
        k
    } else {
        line_end(cs, k + 1)
    }
}

/// The end of a line lies between its start and the end of the text, on a `\n` unless at the end.
pub proof fn lemma_line_end_bounds(cs: Seq<char>, k: int)
    requires
        0 <= k <= cs.len(),
    ensures
        k <= line_end(cs, k) <= cs.len(),
        line_end(cs, k) < cs.len() ==> cs[line_end(cs, k)] == '\n',
    decreases cs.len() - k,
{
    if k < cs.len() && cs[k] != '\n' {
        lemma_line_end_bounds(cs, k + 1);
    }
}

/// The path a tape line names: a line that, trimmed, begins with
/// `Output `; the rest, trimmed, without surrounding `"` and then `'`.
pub open spec fn output_line_path(line: Seq<char>) -> Option<Seq<char>> {
    let t = trim(line, CharClass::Whitespace);
    if starts_with(t, "Output "@) {
        Some(trim(trim(trim(t.skip(7), CharClass::Whitespace), CharClass::Exactly('"')), CharClass::Exactly('\'')))
    } else {
        None
    }
}

/// The path named by the first `Output` line at or after position `k`.
pub open spec fn output_from(cs: Seq<char>, k: int) -> Option<Seq<char>>
    decreases cs.len() - k,
{
    if k < 0 || k > cs.len() {
        None
    } else {
        let e = line_end(cs, k);
        match output_line_path(cs.subrange(k, line_end(cs, k))) {
            Some(p) => Some(p),
            None => if e >= cs.len() {
                None
            } else {
                proof {
                    lemma_line_end_bounds(cs, k);
                }
                output_from(cs, e + 1)
            },
        }
    }
}

/// The GIF a VHS tape writes: the path of its first `Output` line, lines
/// being separated by `\n`.  `None` when the tape has no such line.
pub open spec fn tape_output_of(content: Seq<char>) -> Option<Seq<char>> {
    output_from(content, 0)
}

fn find_line_end(cs: &Vec<char>, k: usize) -> (e: usize)
    requires
        k <= cs@.len(),
    ensures
        e == line_end(cs@, k as int),
{
    let mut e: usize = k;
    while e < cs.len() && cs[e] != '\n'
        invariant
            k <= e <= cs@.len(),
            line_end(cs@, k as int) == line_end(cs@, e as int),
        decreases cs@.len() - e,
    {
        e = e + 1;
    }
    e
}

/// See [`tape_output_of`].
pub fn tape_output_path(content: &str) -> (path: Option<String>)
    ensures
        opt_string_view(path) == tape_output_of(content@),
{
    let cs = chars_of(content);
    let output: Vec<char> = vec!['O', 'u', 't', 'p', 'u', 't', ' '];
    proof {
        reveal_strlit("Output ");
        assert(output@ =~= "Output "@);
    }
    let mut k: usize = 0;
    while k <= cs.len()
        invariant
            k <= cs@.len(),
            cs@ == content@,
            output@ == "Output "@,
            output@.len() == 7,
            output_from(cs@, 0) == output_from(cs@, k as int),
        decreases cs@.len() - k,
    {
        let e: usize = find_line_end(&cs, k);
        proof {
            lemma_line_end_bounds(cs@, k as int);
        }
        let (a, b): (usize, usize) = trim_bounds(&cs, k, e, CharClass::Whitespace);
        let ghost t = cs@.subrange(a as int, b as int);
        if b - a >= 7 && matches_at(&cs, a, &output) {
            proof {
                assert(t.subrange(0, 7) =~= cs@.subrange(a as int, a + 7));
                assert(t.skip(7) =~= cs@.subrange(a + 7, b as int));
            }
            let (a2, b2): (usize, usize) = trim_bounds(&cs, a + 7, b, CharClass::Whitespace);
            let (a3, b3): (usize, usize) = trim_bounds(&cs, a2, b2, CharClass::Exactly('"'));
            let (a4, b4): (usize, usize) = trim_bounds(&cs, a3, b3, CharClass::Exactly('\''));
            return Some(string_of_range(&cs, a4, b4));
        }
        proof {
            if b - a >= 7 {
                assert(t.subrange(0, 7) =~= cs@.subrange(a as int, a + 7));
            }
            assert(output_line_path(cs@.subrange(k as int, e as int)) is None);
        }
        if e >= cs.len() {
            return None;
        }
        k = e + 1;
    }
    None
}

/// Where a recorded tape's GIF is written: the `Output` path the tape
/// names, else the tape's own path with the extension `gif`.
pub fn record_output_path(tape_file: &str, tape_content: &str) -> (path: String)
    ensures
        match tape_output_of(tape_content@) {
            Some(o) => path@ == o,
            None => extension_fits(tape_file@, seq!['g', 'i', 'f'], path@),
        },
{
    match tape_output_path(tape_content) {
        Some(p) => p,
        None => with_gif_extension(tape_file),
    }
}

/// The title a recorded tape is uploaded with: the stem of the tape's file
/// name (empty when it has none), `-` and `_` read as spaces.
pub fn record_title(tape_file: &str) -> (title: String)
    ensures
        exists|stem: Seq<char>| stem_fits(tape_file@, stem) && title@ == title_of_stem(stem),
{
    let stem = file_stem_or_empty(tape_file);
    let title = title_from_stem(stem.as_str());
    assert(stem_fits(tape_file@, stem@) && title@ == title_of_stem(stem@));
    title
}

/// The string member `key` of a JSON document, or `default`.
pub open spec fn member_or(body: Seq<char>, key: Seq<char>, default: Seq<char>) -> Seq<char> {
    match json_member_string(body, key) {
        Some(v) => v,
        None => default,
    }
}

/// A member read with a default is the member's string when it has one,
/// and the default otherwise.
pub proof fn law_member_or(body: Seq<char>, key: Seq<char>, default: Seq<char>)
    ensures
        json_member_string(body, key) matches Some(v) ==> member_or(body, key, default) == v,
        json_member_string(body, key) is None ==> member_or(body, key, default) == default,
{
}

fn member_or_exec(body: &str, key: &str, default: &str) -> (v: String)
    ensures
        v@ == member_or(body@, key@, default@),
{
    match crate::json::member_string(body, key) {
        Some(v) => v,
        None => copy_str(default),
    }
}

/// What a device login start gives: where to approve, the code to show,
/// and the code to poll with (each empty when missing).
#[derive(Debug)]
pub struct DeviceAuth {
    pub verification_url: String,
    pub user_code: String,
    pub device_code: String,
}

/// The reply to [`crate::client::Client::device_auth`]: the error of
/// [`crate::client::handle_response`] for status 400 and above, otherwise
/// the string members `verification_url`, `user_code` and `device_code`.
pub fn device_auth_reply(status: u16, body: &str) -> (r: Result<DeviceAuth, crate::client::ApiError>)
    ensures
        status >= 400 ==> (r matches Err(e) && e.status == status && e.message@ == crate::client::error_message(body@)),
        status < 400 ==> (r matches Ok(d) && d.verification_url@ == member_or(body@, "verification_url"@, ""@)
            && d.user_code@ == member_or(body@, "user_code"@, ""@)
            && d.device_code@ == member_or(body@, "device_code"@, ""@)),
{
    let doc = match crate::client::handle_response(status, body) {
        Ok(d) => d,
        Err(e) => return Err(e),
    };
    Ok(DeviceAuth {
        verification_url: member_or_exec(doc.as_str(), "verification_url", ""),
        user_code: member_or_exec(doc.as_str(), "user_code", ""),
        device_code: member_or_exec(doc.as_str(), "device_code", ""),
    })
}

/// How many times a login asks whether it was approved before giving up.
pub const MAX_LOGIN_POLLS: u32 = 60;

/// Where a device login stands after one reply.
#[derive(Debug)]
pub enum LoginStep {
    /// Not decided yet (also after a failed request): wait and ask again.
    Pending,
    /// Approved: store these credentials.
    LoggedIn { api_key: String, username: String },
    /// The user refused.
    Denied,
    /// The device code ran out.
    Expired,
}

/// The polling side of a device login: it counts the replies and allows at
/// most [`MAX_LOGIN_POLLS`] of them.
pub struct LoginPoll {
    polls: u32,
}

impl LoginPoll {
    /// Replies received so far.
    pub closed spec fn polls_done(&self) -> nat {
        self.polls as nat
    }

    /// A login that has not polled yet.
    pub fn new() -> (p: LoginPoll)
        ensures
            p.polls_done() == 0,
    {
        LoginPoll { polls: 0 }
    }

    /// Whether another poll is allowed: fewer than [`MAX_LOGIN_POLLS`] so far.
    pub fn may_poll(&self) -> (b: bool)
        ensures
            b == (self.polls_done() < MAX_LOGIN_POLLS),
    {
        self.polls < MAX_LOGIN_POLLS
    }

    /// Reads one reply to [`crate::client::Client::device_token`] (`None`
    /// when the request itself failed): status 200 logs in with the
    /// `api_key` and `username` members (empty when missing), 403 is a
    /// refusal, 410 an expired code, anything else still pending.
    pub fn on_reply(&mut self, reply: Option<(u16, &str)>) -> (step: LoginStep)
        requires
            old(self).polls_done() < MAX_LOGIN_POLLS,
        ensures
            final(self).polls_done() == old(self).polls_done() + 1,
            match reply {
                None => step is Pending,
                Some((status, body)) => if status == 200 {
                    step matches LoginStep::LoggedIn { api_key, username } && api_key@ == member_or(body@, "api_key"@, ""@)
                        && username@ == member_or(body@, "username"@, ""@)
                } else if status == 403 {
                    step is Denied
                } else if status == 410 {
                    step is Expired
                } else {
                    step is Pending
                },
            },
    {
        self.polls = self.polls + 1;
        match reply {
            None => LoginStep::Pending,
            Some((status, body)) => {
                if status == 200 {
                    LoginStep::LoggedIn {
                        api_key: member_or_exec(body, "api_key", ""),
                        username: member_or_exec(body, "username", ""),
                    }
                } else if status == 403 {
                    LoginStep::Denied
                } else if status == 410 {
                    LoginStep::Expired
                } else {
                    LoginStep::Pending
                }
            },
        }
    }
}

/// How long `generate` waits for a job before giving up, in seconds.
pub const GENERATE_TIMEOUT_SECS: u64 = 300;

/// Seconds between two status requests of `generate`.
pub const GENERATE_POLL_SECS: u64 = 2;

/// Whether `generate` has waited too long.
pub fn generation_timed_out(elapsed_secs: u64) -> (b: bool)
    ensures
        b == (elapsed_secs > GENERATE_TIMEOUT_SECS),
{
    elapsed_secs > GENERATE_TIMEOUT_SECS
}

/// What a job status means for the waiting `generate`.
#[derive(Debug)]
pub enum WatchStep {
    Continue,
    Completed,
    /// The job failed, with this message.
    Failed(String),
}

/// The outcome of one status reply: the status to announce when it
/// changed, and what to do next.
#[derive(Debug)]
pub struct WatchReport {
    pub announce: Option<String>,
    pub step: WatchStep,
}

/// The waiting side of `generate`: it remembers the last status seen.
pub struct GenerateWatch {
    prev_status: String,
}

impl GenerateWatch {
    /// The status seen last (empty before the first reply).
    pub closed spec fn last_status(&self) -> Seq<char> {
        self.prev_status@
    }

    /// A watch that has seen no status yet.
    pub fn new() -> (w: GenerateWatch)
        ensures
            w.last_status() == Seq::<char>::empty(),
    {
        GenerateWatch { prev_status: String::new() }
    }

    /// Reads one successful status reply: its `status` member (empty when
    /// missing) is announced when it differs from the last one and becomes
    /// the last one; `completed` ends the wait, `failed` ends it with the
    /// `error_message` member (`Unknown error` when missing).
    pub fn observe(&mut self, body: &str) -> (report: WatchReport)
        ensures
            final(self).last_status() == member_or(body@, "status"@, ""@),
            match report.announce {
                Some(s) => s@ == member_or(body@, "status"@, ""@) && s@ != old(self).last_status(),
                None => member_or(body@, "status"@, ""@) == old(self).last_status(),
            },
            member_or(body@, "status"@, ""@) == "completed"@ ==> report.step is Completed,
            member_or(body@, "status"@, ""@) == "failed"@ ==> (report.step matches WatchStep::Failed(m)
                && m@ == member_or(body@, "error_message"@, "Unknown error"@)),
            member_or(body@, "status"@, ""@) != "completed"@ && member_or(body@, "status"@, ""@) != "failed"@
                ==> report.step is Continue,
    {
        let current = member_or_exec(body, "status", "");
        proof {
            reveal_strlit("completed");
            reveal_strlit("failed");
            assert("completed"@.len() != "failed"@.len());
        }
        let announce = if str_eq(current.as_str(), self.prev_status.as_str()) {
            None
        } else {
            Some(current.clone())
        };
        let step = if str_eq(current.as_str(), "completed") {
            WatchStep::Completed
        } else if str_eq(current.as_str(), "failed") {
            WatchStep::Failed(member_or_exec(body, "error_message", "Unknown error"))
        } else {
            WatchStep::Continue
        };
        self.prev_status = current;
        WatchReport { announce, step }
    }
}

/// Alignment of a table cell.
#[derive(PartialEq, Eq, Structural, Clone, Copy)]
pub enum Align {
    Left,
    Right,
}

pub open spec fn spaces(n: nat) -> Seq<char> {
    Seq::new(n, |i: int| ' ')
}

/// A cell padded with spaces to `width` characters (`{:<w}` or `{:>w}`);
/// longer text is left as it is.
pub open spec fn padded(text: Seq<char>, width: nat, align: Align) -> Seq<char> {
    if text.len() >= width {
        text
    } else {
        match align {
            Align::Left => text + spaces((width - text.len()) as nat),
            Align::Right => spaces((width - text.len()) as nat) + text,
        }
    }
}

fn push_spaces(s: &mut String, n: usize)
    ensures
        final(s)@ == old(s)@ + spaces(n as nat),
{
    let mut i: usize = 0;
    while i < n
        invariant
            i <= n,
            s@ == old(s)@ + spaces(i as nat),
        decreases n - i,
    {
        push_char(s, ' ');
        assert(s@ =~= old(s)@ + spaces((i + 1) as nat));
        i = i + 1;
    }
}

/// See [`padded`].
pub fn pad(text: &str, width: usize, align: Align) -> (cell: String)
    ensures
        cell@ == padded(text@, width as nat, align),
{
    let n: usize = text.unicode_len();
    if n >= width {
        return copy_str(text);
    }
    match align {
        Align::Left => {
            let mut cell = copy_str(text);
            push_spaces(&mut cell, width - n);
            cell
        },
        Align::Right => {
            let mut cell = String::new();
            push_spaces(&mut cell, width - n);
            cell.append(text);
            assert(cell@ =~= spaces((width - n) as nat) + text@);
            cell
        },
    }
}

/// Whether a text can be cut after its first `max` bytes: it is that
/// short already, or byte `max` begins a character.
pub open spec fn clip_ok(text: Seq<char>, max: nat) -> bool {
    encode_utf8(text).len() <= max || is_char_boundary(encode_utf8(text), max as int)
}

/// The text made of the first `max` bytes of `text`'s UTF-8 encoding, or
/// `text` itself when it is no longer than that.
pub open spec fn clipped_text(text: Seq<char>, max: nat) -> Seq<char> {
    if encode_utf8(text).len() <= max {
        text
    } else {
        decode_utf8(encode_utf8(text).subrange(0, max as int))
    }
}

/// The first `max` bytes of a text (`String::truncate`), which must end on
/// a character boundary; a text that short already is kept whole.
pub fn clip_bytes(text: &str, max: usize) -> (clipped: String)
    requires
        clip_ok(text@, max as nat),
    ensures
        clipped@ == clipped_text(text@, max as nat),
        text.spec_bytes().len() > max ==> encode_utf8(clipped@) == text.spec_bytes().subrange(0, max as int),
{
    let n: usize = text.as_bytes().len();
    if n <= max {
        copy_str(text)
    } else {
        let (head, _) = text.split_at(max);
        let clipped = copy_str(head);
        assert(head.spec_bytes() == encode_utf8(head@));
        assert(encode_utf8(clipped@) =~= text.spec_bytes().subrange(0, max as int));
        proof {
            encode_utf8_decode_utf8(clipped@);
        }
        clipped
    }
}

pub open spec fn cells_view(cells: Seq<(String, usize, Align)>) -> Seq<(Seq<char>, nat, Align)> {
    cells.map_values(|c: (String, usize, Align)| (c.0@, c.1 as nat, c.2))
}

/// A table row: the cells padded, separated by two spaces (a width of 0
/// leaves a cell as it is).
pub open spec fn row_text(cells: Seq<(Seq<char>, nat, Align)>) -> Seq<char>
    decreases cells.len(),
{
    if cells.len() == 0 {
        seq![]
    } else if cells.len() == 1 {
        padded(cells[0].0, cells[0].1, cells[0].2)
    } else {
        row_text(cells.drop_last()) + "  "@ + padded(cells.last().0, cells.last().1, cells.last().2)
    }
}

/// See [`row_text`].
pub fn table_row(cells: &Vec<(String, usize, Align)>) -> (row: String)
    ensures
        row@ == row_text(cells_view(cells@)),
{
    let ghost cv = cells_view(cells@);
    let mut row = String::new();
    let mut i: usize = 0;
    proof {
        reveal_strlit("  ");
    }
    while i < cells.len()
        invariant
            i <= cells@.len(),
            cv == cells_view(cells@),
            row@ == row_text(cv.take(i as int)),
        decreases cells@.len() - i,
    {
        proof {
            assert(cv.take(i + 1).drop_last() =~= cv.take(i as int));
            assert(cv[i as int] == (cells@[i as int].0@, cells@[i as int].1 as nat, cells@[i as int].2));
        }
        if i > 0 {
            row.append("  ");
        }
        let cell = pad(cells[i].0.as_str(), cells[i].1, cells[i].2);
        row.append(cell.as_str());
        proof {
            if i == 0 {
                assert(row_text(cv.take(0)) =~= seq![]);
                assert(row@ =~= row_text(cv.take(1)));
            } else {
                assert(row@ =~= row_text(cv.take(i + 1)));
            }
        }
        i = i + 1;
    }
    assert(cv.take(i as int) =~= cv);
    row
}

} // verus!
