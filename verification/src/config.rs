//! Stored credentials and where they live.
//!
//! The credentials file holds a JSON object with the API key and the user
//! name.  Reading and writing the file is left to the caller; this module
//! states what is read from it and what is written back.
use vstd::prelude::*;
use crate::text::{copy_str, push_char};
use crate::json::{JsonScalar, JsonScalarView, json_object_text, json_pretty, object_text, pretty_document,
    scalar_entries_view};

verus! {

/// The stored credentials; an empty field means "not set".
#[derive(Debug)]
pub struct Config {
    pub api_key: String,
    pub username: String,
}

/// The mathematical value of a [`Config`].
pub struct ConfigView {
    pub api_key: Seq<char>,
    pub username: Seq<char>,
}

impl View for Config {
    type V = ConfigView;

    open spec fn view(&self) -> ConfigView {
        ConfigView { api_key: self.api_key@, username: self.username@ }
    }
}

/// The credentials after a login as `username` with `api_key`.
pub open spec fn saved_credentials(config: ConfigView, api_key: Seq<char>, username: Seq<char>) -> ConfigView {
    ConfigView { api_key, username, ..config }
}

/// The credentials after a logout.
pub open spec fn cleared_credentials(config: ConfigView) -> ConfigView {
    ConfigView { api_key: Seq::empty(), username: Seq::empty(), ..config }
}

/// Whether stored credentials count as logged in.
pub open spec fn is_logged_in(config: ConfigView) -> bool {
    config.api_key.len() > 0
}

impl Default for Config {
    fn default() -> (c: Config)
        ensures
            c@ == (ConfigView { api_key: Seq::empty(), username: Seq::empty() }),
    {
        let c = Config { api_key: String::new(), username: String::new() };
        assert(c@ =~= (ConfigView { api_key: Seq::empty(), username: Seq::empty() }));
        c
    }
}

/// The API key stored in `config` (empty when not logged in).
pub fn get_api_key(config: &Config) -> (key: String)
    ensures
        key@ == config@.api_key,
{
    config.api_key.clone()
}

/// The credentials to write back after a successful login: the key and the
/// user name replace the stored ones.
pub fn save_credentials(config: Config, api_key: &str, username: &str) -> (saved: Config)
    ensures
        saved@ == saved_credentials(config@, api_key@, username@),
{
    let mut cfg = config;
    cfg.api_key = copy_str(api_key);
    cfg.username = copy_str(username);
    cfg
}

/// The credentials to write back on logout: both fields emptied.
pub fn clear_credentials(config: Config) -> (cleared: Config)
    ensures
        cleared@ == cleared_credentials(config@),
{
    let mut cfg = config;
    cfg.api_key = String::new();
    cfg.username = String::new();
    assert(cfg@ =~= cleared_credentials(config@));
    cfg
}

/// The members written to the credentials file: each field that is not
/// empty, `api_key` first.
pub open spec fn stored_members(config: ConfigView) -> Seq<(Seq<char>, JsonScalarView)> {
    (if config.api_key.len() > 0 {
        seq![("api_key"@, JsonScalarView::Text(config.api_key))]
    } else {
        Seq::empty()
    }) + (if config.username.len() > 0 {
        seq![("username"@, JsonScalarView::Text(config.username))]
    } else {
        Seq::empty()
    })
}

/// The text of the credentials file: the JSON object of
/// [`stored_members`], pretty-printed, and a line break.
pub open spec fn credentials_file_text(config: ConfigView) -> Seq<char> {
    json_pretty(json_object_text(stored_members(config))) + seq!['\n']
}

/// See [`credentials_file_text`].
pub fn credentials_text(config: &Config) -> (text: String)
    ensures
        text@ == credentials_file_text(config@),
{
    let mut members: Vec<(String, JsonScalar)> = Vec::new();
    if !config.api_key.as_str().is_empty() {
        members.push((String::from_str("api_key"), JsonScalar::Text(config.api_key.clone())));
    }
    let ghost first = scalar_entries_view(members@);
    if !config.username.as_str().is_empty() {
        members.push((String::from_str("username"), JsonScalar::Text(config.username.clone())));
        assert(scalar_entries_view(members@) =~= first.push(("username"@, JsonScalarView::Text(config.username@))));
    }
    assert(scalar_entries_view(members@) =~= stored_members(config@));
    let compact = object_text(&members);
    let mut text = pretty_document(compact.as_str());
    push_char(&mut text, '\n');
    text
}

/// After a login is saved, the stored key is the one that was saved, and
/// the user counts as logged in exactly when that key is not empty.
pub proof fn lemma_save_then_read(config: ConfigView, api_key: Seq<char>, username: Seq<char>)
    ensures
        saved_credentials(config, api_key, username).api_key == api_key,
        saved_credentials(config, api_key, username).username == username,
        is_logged_in(saved_credentials(config, api_key, username)) == (api_key.len() > 0),
{
}

/// After a logout the user is no longer logged in, whatever was stored;
/// logging out twice is the same as once, and a logout erases any login.
pub proof fn lemma_clear_logs_out(config: ConfigView, api_key: Seq<char>, username: Seq<char>)
    ensures
        !is_logged_in(cleared_credentials(config)),
        cleared_credentials(cleared_credentials(config)) == cleared_credentials(config),
        cleared_credentials(saved_credentials(config, api_key, username)) == cleared_credentials(config),
{
    assert(cleared_credentials(cleared_credentials(config)) =~= cleared_credentials(config));
    assert(cleared_credentials(saved_credentials(config, api_key, username)) =~= cleared_credentials(config));
}

/// A path separator on some platform: `/`, or `\` on Windows.
pub open spec fn is_separator(c: char) -> bool {
    c == '/' || c == '\\'
}

/// A path that Windows may read as verbatim (`\\?\...`, with either
/// slash); the standard library rewrites such a path when it is extended.
pub open spec fn verbatim_like(dir: Seq<char>) -> bool {
    &&& dir.len() >= 4
    &&& is_separator(dir[0])
    &&& is_separator(dir[1])
    &&& dir[2] == '?'
    &&& is_separator(dir[3])
}

/// A bare drive such as `C:`, to which Windows appends without a separator.
pub open spec fn bare_drive(dir: Seq<char>) -> bool {
    dir.len() == 2 && dir[1] == ':'
}

/// Whether every platform puts a separator between `dir` and a name
/// appended to it: `dir` is not empty, does not end in a separator, and is
/// neither verbatim nor a bare drive.
pub open spec fn needs_separator(dir: Seq<char>) -> bool {
    &&& dir.len() > 0
    &&& !is_separator(dir.last())
    &&& !verbatim_like(dir)
    &&& !bare_drive(dir)
}

/// `name` appended to `dir` after one separator, `/` or `\`.
pub open spec fn separated(dir: Seq<char>, name: Seq<char>, result: Seq<char>) -> bool {
    result == dir + seq!['/'] + name || result == dir + seq!['\\'] + name
}

/// What holds of `dir` joined with a plain file name `name` on every
/// platform: a separator goes between them when [`needs_separator`] holds;
/// an empty `dir` gives `name`; a `dir` that ends in `/` gets `name` right
/// after it; in the remaining cases (a trailing `\`, a bare drive) one of
/// the two forms comes out.  Nothing is said of a verbatim `dir` beyond that.
pub open spec fn path_joined(dir: Seq<char>, name: Seq<char>, result: Seq<char>) -> bool {
    &&& needs_separator(dir) ==> separated(dir, name, result)
    &&& dir.len() == 0 ==> result == name
    &&& (!verbatim_like(dir) && dir.len() > 0 && dir.last() == '/') ==> result == dir + name
    &&& !verbatim_like(dir) ==> (result == dir + name || separated(dir, name, result))
    &&& result.len() > 0
}

/// Joins a file name onto a directory path (`Path::join`, which pushes onto
/// a copy of the directory, then `to_string_lossy`, which loses nothing on
/// a path built from a `&str`).
///
/// Trusted.  The name is a plain relative name: not empty, not `.` or `..`,
/// without `/`, `\` or `:`, so it has no root and no prefix.  `PathBuf::push`
/// then appends it, after the platform's separator unless the directory is
/// empty, ends in a separator (`/`; on Windows also `\`) or is a bare
/// drive on Windows; a directory with a verbatim prefix on Windows is
/// rewritten.  The contract is [`path_joined`], which holds on every
/// platform; which separator comes out is left open.
#[verifier::external_body]
fn path_join(dir: &str, name: &str) -> (joined: String)
    requires
        name@.len() > 0,
        name@ != seq!['.'],
        name@ != seq!['.', '.'],
        !name@.contains('/'),
        !name@.contains('\\'),
        !name@.contains(':'),
    ensures
        path_joined(dir@, name@, joined@),
{
    std::path::Path::new(dir).join(name).to_string_lossy().into_owned()
}

/// The directory under which the credentials directory lies: the system's
/// configuration directory, or `.` when the system has none.
pub open spec fn config_base(system_config_dir: Option<Seq<char>>) -> Seq<char> {
    match system_config_dir {
        Some(base) => base,
        None => seq!['.'],
    }
}

pub open spec fn opt_str_seq(o: Option<&str>) -> Option<Seq<char>> {
    match o {
        Some(s) => Some(s@),
        None => None,
    }
}

proof fn lemma_plain_names()
    ensures
        "agentgif"@ == seq!['a', 'g', 'e', 'n', 't', 'g', 'i', 'f'],
        "config.json"@ == seq!['c', 'o', 'n', 'f', 'i', 'g', '.', 'j', 's', 'o', 'n'],
        "."@ == seq!['.'],
{
    reveal_strlit("agentgif");
    reveal_strlit("config.json");
    reveal_strlit(".");
}

/// The directory of the credentials file: `agentgif` joined onto
/// [`config_base`].
pub fn config_dir(system_config_dir: Option<&str>) -> (dir: String)
    ensures
        path_joined(config_base(opt_str_seq(system_config_dir)), "agentgif"@, dir@),
{
    let base = match system_config_dir {
        Some(b) => b,
        None => ".",
    };
    proof {
        lemma_plain_names();
    }
    path_join(base, "agentgif")
}

/// The path of the credentials file: `config.json` joined onto
/// [`config_dir`].
pub fn config_path(system_config_dir: Option<&str>) -> (path: String)
    ensures
        exists|dir: Seq<char>|
            path_joined(config_base(opt_str_seq(system_config_dir)), "agentgif"@, dir)
                && #[trigger] path_joined(dir, "config.json"@, path@),
{
    let dir = config_dir(system_config_dir);
    proof {
        lemma_plain_names();
    }
    let path = path_join(dir.as_str(), "config.json");
    assert(path_joined(dir@, "config.json"@, path@));
    path
}

/// The credentials file lies at `<base>/agentgif/config.json`, each `/`
/// standing for a separator (`/` or `\`), where `<base>` is the system's
/// configuration directory or `.` without one: this holds for every base
/// after which every platform puts a separator (see [`needs_separator`])
/// and that stays non-verbatim with one more separator.
pub proof fn lemma_credentials_location(system_config_dir: Option<Seq<char>>, dir: Seq<char>, path: Seq<char>)
    requires
        needs_separator(config_base(system_config_dir)),
        !verbatim_like(config_base(system_config_dir) + seq!['/']),
        !verbatim_like(config_base(system_config_dir) + seq!['\\']),
        path_joined(config_base(system_config_dir), "agentgif"@, dir),
        path_joined(dir, "config.json"@, path),
    ensures
        exists|s1: char, s2: char|
            is_separator(s1) && is_separator(s2) && path == config_base(system_config_dir) + seq![s1]
                + "agentgif"@ + seq![s2] + "config.json"@,
{
    let base = config_base(system_config_dir);
    lemma_plain_names();
    let s1 = if dir == base + seq!['/'] + "agentgif"@ { '/' } else { '\\' };
    assert(dir == base + seq![s1] + "agentgif"@);
    let head = base + seq![s1];
    assert(dir =~= head + "agentgif"@);
    assert(dir.len() == head.len() + 8);
    assert(dir[dir.len() - 1] == "agentgif"@[7]);
    assert(!verbatim_like(dir)) by {
        if head.len() >= 4 {
            assert(dir[0] == head[0] && dir[1] == head[1] && dir[2] == head[2] && dir[3] == head[3]);
        } else {
            assert(dir[3] == "agentgif"@[3 - head.len()]);
        }
    }
    assert(needs_separator(dir));
    let s2 = if path == dir + seq!['/'] + "config.json"@ { '/' } else { '\\' };
    assert(path == base + seq![s1] + "agentgif"@ + seq![s2] + "config.json"@);
}

} // verus!
