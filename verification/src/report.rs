//! What the commands print from the server's replies: search results, the
//! user's GIFs, a GIF's details, badge themes, a generation job's status
//! and the short confirmations, all read from the reply bodies with
//! `serde_json` (see [`crate::json`]).  Counts that the program reads and
//! prints as floating-point numbers are left to the caller.
use vstd::prelude::*;
use crate::cli::{Align, clip_bytes, clip_ok, clipped_text, lines_view, member_or, padded, row_text, table_row, cells_view};
use crate::client::{ApiError, api_error_text, error_message, handle_response, embed_codes_of, embed_codes_reply};
use crate::params::lookup;
use crate::json::{array_rows, json_array_rows, json_member_string, json_member_text, json_pretty,
    member_display, member_string, pretty_document, rows_view, strings_view, opt_string_view, cells_of};
use crate::text::push_char;

verus! {

/// A string member read from a row, or `-` when it was missing.
pub open spec fn or_dash(cell: Option<Seq<char>>) -> Seq<char> {
    match cell {
        Some(t) => t,
        None => "-"@,
    }
}

/// A left-aligned cell of the given width.
pub open spec fn left(text: Seq<char>, width: nat) -> (Seq<char>, nat, Align) {
    (text, width, Align::Left)
}

/// A rule of `n` box-drawing dashes, as under a table's header.
pub open spec fn rule(n: nat) -> Seq<char> {
    Seq::new(n, |i: int| '─')
}

/// The lines of a reply that were printed, or the error line.
pub open spec fn lines_result_view(r: Result<Vec<String>, String>) -> Result<Seq<Seq<char>>, Seq<char>> {
    match r {
        Ok(v) => Ok(lines_view(v@)),
        Err(e) => Err(e@),
    }
}

/// The line printed for a failed call: `Error: ` and the error's text.
pub open spec fn error_line(message: Seq<char>, status: u16) -> Seq<char> {
    "Error: "@ + api_error_text(message, status)
}

/// No cell `col` of the rows (or `-` for a missing one) would be cut
/// inside a character when cut to `max` bytes.
pub open spec fn cells_clippable(rows: Seq<Seq<Option<Seq<char>>>>, col: int, max: nat) -> bool {
    forall|i: int| #![trigger rows[i]] 0 <= i < rows.len() ==> clip_ok(or_dash(rows[i][col]), max)
}

/// [`cells_clippable`] for the rows of the array `key` of a document (true
/// when there is no such array).
pub open spec fn column_clippable(body: Seq<char>, key: Seq<char>, fields: Seq<Seq<char>>, col: int, max: nat) -> bool {
    match json_array_rows(body, key, fields) {
        Some(rows) => cells_clippable(rows, col, max),
        None => true,
    }
}

proof fn lemma_column_clippable(body: Seq<char>, key: Seq<char>, fields: Seq<Seq<char>>, col: int, max: nat,
    rows: Seq<Seq<Option<Seq<char>>>>)
    requires
        json_array_rows(body, key, fields) == Some(rows),
    ensures
        column_clippable(body, key, fields, col, max) == cells_clippable(rows, col, max),
{
    let found = json_array_rows(body, key, fields);
    assert(found->0 == rows);
}

fn or_dash_exec(cell: &Option<String>) -> (t: String)
    ensures
        t@ == or_dash(opt_string_view(*cell)),
{
    match cell {
        Some(t) => t.clone(),
        None => String::from_str("-"),
    }
}

/// See [`cells_clippable`].
fn column_fits(rows: &Vec<Vec<Option<String>>>, col: usize, max: usize) -> (b: bool)
    requires
        forall|k: int| 0 <= k < rows@.len() ==> col < (#[trigger] rows@[k])@.len(),
    ensures
        b == cells_clippable(rows_view(rows@), col as int, max as nat),
{
    let ghost rv = rows_view(rows@);
    let mut i: usize = 0;
    while i < rows.len()
        invariant
            i <= rows@.len(),
            rv == rows_view(rows@),
            forall|k: int| 0 <= k < rows@.len() ==> col < (#[trigger] rows@[k])@.len(),
            forall|k: int| #![trigger rv[k]] 0 <= k < i ==> clip_ok(or_dash(rv[k][col as int]), max as nat),
        decreases rows@.len() - i,
    {
        let cell = or_dash_exec(&rows[i][col]);
        assert(rv[i as int] == cells_of(rows@[i as int]@));
        assert(rv[i as int][col as int] == opt_string_view(rows@[i as int]@[col as int]));
        let n: usize = cell.as_str().as_bytes().len();
        if !(n <= max || cell.as_str().is_char_boundary(max)) {
            return false;
        }
        i = i + 1;
    }
    true
}

// ── search ──────────────────────────────────────

/// The members of a search result that are shown.
pub open spec fn search_fields() -> Seq<Seq<char>> {
    seq!["id"@, "title"@, "command"@]
}

pub open spec fn search_usage() -> Seq<char> {
    "Usage: agentgif search <query>"@
}

pub open spec fn no_results() -> Seq<char> {
    "No results found."@
}

pub open spec fn search_heading(query: Seq<char>, count: Seq<char>) -> Seq<char> {
    "Search: "@ + query + " ("@ + count + " results)"@
}

pub open spec fn search_header() -> Seq<char> {
    row_text(seq![left("ID"@, 10), left("Title"@, 30), left("Command"@, 0)])
}

pub open spec fn search_rule() -> Seq<char> {
    row_text(seq![left(rule(10), 10), left(rule(30), 30), left(rule(20), 0)])
}

/// One result: its id, its title cut to 30 bytes, its command.
pub open spec fn search_row(cells: Seq<Option<Seq<char>>>) -> Seq<char> {
    row_text(seq![left(or_dash(cells[0]), 10), left(clipped_text(or_dash(cells[1]), 30), 30), left(or_dash(cells[2]), 0)])
}

/// What a successful search prints: a heading with the query and the
/// reply's `count`, an empty line, the table header and one row per
/// result; or `No results found.` when `results` is missing or empty.
pub open spec fn search_lines(query: Seq<char>, body: Seq<char>) -> Seq<Seq<char>> {
    match json_array_rows(body, "results"@, search_fields()) {
        Some(rows) => if rows.len() > 0 {
            seq![search_heading(query, json_member_text(body, "count"@)), Seq::empty(), search_header(), search_rule()]
                + rows.map_values(|r: Seq<Option<Seq<char>>>| search_row(r))
        } else {
            seq![no_results()]
        },
        None => seq![no_results()],
    }
}

/// The outcome of a search for `query` answered with `status` and `body`:
/// the usage line for an empty query, the error line for an error reply,
/// otherwise [`search_lines`].
pub open spec fn search_result(query: Seq<char>, status: u16, body: Seq<char>) -> Result<Seq<Seq<char>>, Seq<char>> {
    if query.len() == 0 {
        Err(search_usage())
    } else if status >= 400 {
        Err(error_line(error_message(body), status))
    } else {
        Ok(search_lines(query, body))
    }
}

/// Whether every result title can be cut to 30 bytes (the cut must not
/// fall inside a character).
pub open spec fn titles_clippable(body: Seq<char>) -> bool {
    column_clippable(body, "results"@, search_fields(), 1, 30)
}

fn rule_exec(n: usize) -> (s: String)
    ensures
        s@ == rule(n as nat),
{
    let mut s = String::new();
    let mut i: usize = 0;
    while i < n
        invariant
            i <= n,
            s@ == rule(i as nat),
        decreases n - i,
    {
        push_char(&mut s, '─');
        assert(s@ =~= rule((i + 1) as nat));
        i = i + 1;
    }
    s
}

/// The line printed for an error reply.
pub fn error_line_of(e: &ApiError) -> (line: String)
    ensures
        line@ == error_line(e.message@, e.status),
{
    let mut line = String::from_str("Error: ");
    let text = e.to_string();
    line.append(text.as_str());
    line
}

fn three_cells(a: String, aw: usize, b: String, bw: usize, c: String) -> (row: String)
    ensures
        row@ == row_text(seq![left(a@, aw as nat), left(b@, bw as nat), left(c@, 0)]),
{
    let cells = vec![(a, aw, Align::Left), (b, bw, Align::Left), (c, 0, Align::Left)];
    let row = table_row(&cells);
    assert(cells_view(cells@) =~= seq![left(a@, aw as nat), left(b@, bw as nat), left(c@, 0)]);
    row
}

fn search_field_names() -> (fields: Vec<String>)
    ensures
        fields@.len() == 3,
        strings_view(fields@) == search_fields(),
{
    let fields = vec![String::from_str("id"), String::from_str("title"), String::from_str("command")];
    assert(strings_view(fields@) =~= search_fields());
    fields
}

/// The lines a search prints (see [`search_result`]).  A title that would
/// be cut inside a character is left out by `requires`; see
/// [`search_display`] for a version that checks it.
pub fn search_output(query: &str, status: u16, body: &str) -> (r: Result<Vec<String>, String>)
    requires
        query@.len() > 0 && status < 400 ==> titles_clippable(body@),
    ensures
        lines_result_view(r) == search_result(query@, status, body@),
{
    if query.is_empty() {
        return Err(String::from_str("Usage: agentgif search <query>"));
    }
    let doc = match handle_response(status, body) {
        Ok(d) => d,
        Err(e) => return Err(error_line_of(&e)),
    };
    let fields = search_field_names();
    let rows = match array_rows(doc.as_str(), "results", &fields) {
        Some(rows) => rows,
        None => {
            let lines = vec![String::from_str("No results found.")];
            assert(lines_view(lines@) =~= seq![no_results()]);
            return Ok(lines);
        },
    };
    if rows.len() == 0 {
        let lines = vec![String::from_str("No results found.")];
        assert(lines_view(lines@) =~= seq![no_results()]);
        return Ok(lines);
    }
    let mut heading = String::from_str("Search: ");
    heading.append(query);
    heading.append(" (");
    let count = member_display(doc.as_str(), "count");
    heading.append(count.as_str());
    heading.append(" results)");
    let mut lines: Vec<String> = Vec::new();
    lines.push(heading);
    lines.push(String::new());
    lines.push(three_cells(String::from_str("ID"), 10, String::from_str("Title"), 30, String::from_str("Command")));
    lines.push(three_cells(rule_exec(10), 10, rule_exec(30), 30, rule_exec(20)));
    let ghost rv = rows_view(rows@);
    proof {
        lemma_column_clippable(body@, "results"@, search_fields(), 1, 30, rv);
    }
    let ghost prefix = lines_view(lines@);
    assert(prefix =~= seq![search_heading(query@, json_member_text(body@, "count"@)), Seq::empty(), search_header(), search_rule()]);
    let mut i: usize = 0;
    while i < rows.len()
        invariant
            i <= rows@.len(),
            rv == rows_view(rows@),
            json_array_rows(body@, "results"@, search_fields()) == Some(rv),
            cells_clippable(rv, 1, 30),
            forall|k: int| 0 <= k < rows@.len() ==> (#[trigger] rows@[k])@.len() == 3,
            lines_view(lines@) == prefix + rv.take(i as int).map_values(|r: Seq<Option<Seq<char>>>| search_row(r)),
        decreases rows@.len() - i,
    {
        let row = &rows[i];
        assert(rv[i as int] == cells_of(row@));
        let title = or_dash_exec(&row[1]);
        let clipped = clip_bytes(title.as_str(), 30);
        let line = three_cells(or_dash_exec(&row[0]), 10, clipped, 30, or_dash_exec(&row[2]));
        assert(line@ == search_row(rv[i as int]));
        let ghost before = lines@;
        lines.push(line);
        proof {
            assert(lines_view(lines@) =~= lines_view(before).push(search_row(rv[i as int])));
            assert(rv.take(i + 1).map_values(|r: Seq<Option<Seq<char>>>| search_row(r))
                =~= rv.take(i as int).map_values(|r: Seq<Option<Seq<char>>>| search_row(r)).push(search_row(rv[i as int])));
            assert(lines_view(lines@) =~= prefix + rv.take(i + 1).map_values(|r: Seq<Option<Seq<char>>>| search_row(r)));
        }
        i = i + 1;
    }
    assert(rv.take(i as int) =~= rv);
    Ok(lines)
}

/// The lines a search prints, when no title would be cut inside a
/// character; `None` when one would (there the command would stop without
/// printing the table).
pub fn search_display(query: &str, status: u16, body: &str) -> (r: Option<Result<Vec<String>, String>>)
    ensures
        r is None <==> (query@.len() > 0 && status < 400 && !titles_clippable(body@)),
        r matches Some(lines) ==> lines_result_view(lines) == search_result(query@, status, body@),
{
    if query.is_empty() || status >= 400 {
        return Some(search_output(query, status, body));
    }
    let fields = search_field_names();
    match array_rows(body, "results", &fields) {
        Some(rows) => {
            proof {
                lemma_column_clippable(body@, "results"@, search_fields(), 1, 30, rows_view(rows@));
            }
            if !column_fits(&rows, 1, 30) {
                return None;
            }
        },
        None => {},
    }
    Some(search_output(query, status, body))
}

// ── info ────────────────────────────────────────

/// What `info` prints for a GIF: for status 400 and above the error of
/// [`handle_response`]; otherwise the reply's document pretty-printed.
pub fn info_output(status: u16, body: &str) -> (r: Result<String, ApiError>)
    ensures
        status >= 400 ==> (r matches Err(e) && e.status == status && e.message@ == error_message(body@)),
        status < 400 ==> (r matches Ok(t) && t@ == json_pretty(body@)),
{
    let doc = match handle_response(status, body) {
        Ok(d) => d,
        Err(e) => return Err(e),
    };
    Ok(pretty_document(doc.as_str()))
}

// ── list ────────────────────────────────────────

/// The members of a listed GIF that the library reads; its view count is
/// read and printed by the caller.
pub open spec fn list_fields() -> Seq<Seq<char>> {
    seq!["id"@, "title"@]
}

pub open spec fn list_header() -> Seq<char> {
    row_text(seq![left("ID"@, 10), left("Title"@, 30), ("Views"@, 6, Align::Right)])
}

pub open spec fn list_rule() -> Seq<char> {
    row_text(seq![left(rule(10), 10), left(rule(30), 30), (rule(6), 6, Align::Right)])
}

/// The first two cells of a listed GIF's row: its id and its title cut to
/// 30 bytes.
pub open spec fn listed_cells(cells: Seq<Option<Seq<char>>>) -> (Seq<char>, Seq<char>) {
    (or_dash(cells[0]), clipped_text(or_dash(cells[1]), 30))
}

/// What `list` prints before its rows: the heading with the reply's
/// `count`, an empty line and the table header; or `No GIFs found.` when
/// `results` is missing or empty.
pub open spec fn list_lines(body: Seq<char>) -> Seq<Seq<char>> {
    match json_array_rows(body, "results"@, list_fields()) {
        Some(rows) => if rows.len() > 0 {
            seq!["My GIFs ("@ + json_member_text(body, "count"@) + ")"@, Seq::empty(), list_header(), list_rule()]
        } else {
            seq!["No GIFs found."@]
        },
        None => seq!["No GIFs found."@],
    }
}

/// The id and cut title of each listed GIF, in order.
pub open spec fn list_cells(body: Seq<char>) -> Seq<(Seq<char>, Seq<char>)> {
    match json_array_rows(body, "results"@, list_fields()) {
        Some(rows) => rows.map_values(|r: Seq<Option<Seq<char>>>| listed_cells(r)),
        None => Seq::empty(),
    }
}

pub open spec fn list_titles_clippable(body: Seq<char>) -> bool {
    column_clippable(body, "results"@, list_fields(), 1, 30)
}

/// What `list` prints: `lines`, then one row per entry of `cells`, each
/// completed by the caller with the GIF's view count.
#[derive(Debug)]
pub struct ListDisplay {
    pub lines: Vec<String>,
    pub cells: Vec<(String, String)>,
}

pub open spec fn pairs_view(v: Seq<(String, String)>) -> Seq<(Seq<char>, Seq<char>)> {
    v.map_values(|p: (String, String)| (p.0@, p.1@))
}

fn list_field_names() -> (fields: Vec<String>)
    ensures
        fields@.len() == 2,
        strings_view(fields@) == list_fields(),
{
    let fields = vec![String::from_str("id"), String::from_str("title")];
    assert(strings_view(fields@) =~= list_fields());
    fields
}

/// See [`list_lines`] and [`list_cells`]; for status 400 and above the
/// error of [`handle_response`].  A title that would be cut inside a
/// character is left out by `requires`; see [`list_display`].
pub fn list_output(status: u16, body: &str) -> (r: Result<ListDisplay, ApiError>)
    requires
        status < 400 ==> list_titles_clippable(body@),
    ensures
        status >= 400 ==> (r matches Err(e) && e.status == status && e.message@ == error_message(body@)),
        status < 400 ==> (r matches Ok(d) && lines_view(d.lines@) == list_lines(body@)
            && pairs_view(d.cells@) == list_cells(body@)),
{
    let doc = match handle_response(status, body) {
        Ok(d) => d,
        Err(e) => return Err(e),
    };
    let fields = list_field_names();
    let none_found = ListDisplay { lines: vec![String::from_str("No GIFs found.")], cells: Vec::new() };
    let rows = match array_rows(doc.as_str(), "results", &fields) {
        Some(rows) => rows,
        None => {
            assert(lines_view(none_found.lines@) =~= list_lines(body@));
            assert(pairs_view(none_found.cells@) =~= list_cells(body@));
            return Ok(none_found);
        },
    };
    let ghost rv = rows_view(rows@);
    proof {
        lemma_column_clippable(body@, "results"@, list_fields(), 1, 30, rv);
    }
    if rows.len() == 0 {
        assert(lines_view(none_found.lines@) =~= list_lines(body@));
        assert(pairs_view(none_found.cells@) =~= list_cells(body@));
        return Ok(none_found);
    }
    let mut heading = String::from_str("My GIFs (");
    heading.append(member_display(doc.as_str(), "count").as_str());
    heading.append(")");
    let header = vec![(String::from_str("ID"), 10, Align::Left), (String::from_str("Title"), 30, Align::Left),
        (String::from_str("Views"), 6, Align::Right)];
    let rule_row = vec![(rule_exec(10), 10, Align::Left), (rule_exec(30), 30, Align::Left),
        (rule_exec(6), 6, Align::Right)];
    let header_line = table_row(&header);
    let rule_line = table_row(&rule_row);
    assert(cells_view(header@) =~= seq![left("ID"@, 10), left("Title"@, 30), ("Views"@, 6nat, Align::Right)]);
    assert(cells_view(rule_row@) =~= seq![left(rule(10), 10), left(rule(30), 30), (rule(6), 6nat, Align::Right)]);
    let lines = vec![heading, String::new(), header_line, rule_line];
    assert(lines_view(lines@) =~= list_lines(body@));
    let mut cells: Vec<(String, String)> = Vec::new();
    let mut i: usize = 0;
    while i < rows.len()
        invariant
            i <= rows@.len(),
            rv == rows_view(rows@),
            cells_clippable(rv, 1, 30),
            forall|k: int| 0 <= k < rows@.len() ==> (#[trigger] rows@[k])@.len() == 2,
            pairs_view(cells@) == rv.take(i as int).map_values(|r: Seq<Option<Seq<char>>>| listed_cells(r)),
        decreases rows@.len() - i,
    {
        let row = &rows[i];
        assert(rv[i as int] == cells_of(row@));
        let title = or_dash_exec(&row[1]);
        let pair = (or_dash_exec(&row[0]), clip_bytes(title.as_str(), 30));
        let ghost before = cells@;
        cells.push(pair);
        proof {
            assert(rv.take(i + 1).map_values(|r: Seq<Option<Seq<char>>>| listed_cells(r))
                =~= rv.take(i as int).map_values(|r: Seq<Option<Seq<char>>>| listed_cells(r)).push(listed_cells(rv[i as int])));
            assert(pairs_view(cells@) =~= pairs_view(before).push(listed_cells(rv[i as int])));
        }
        i = i + 1;
    }
    assert(rv.take(i as int) =~= rv);
    Ok(ListDisplay { lines, cells })
}

/// [`list_output`] when no title would be cut inside a character; `None`
/// when one would.
pub fn list_display(status: u16, body: &str) -> (r: Option<Result<ListDisplay, ApiError>>)
    ensures
        r is None <==> (status < 400 && !list_titles_clippable(body@)),
        r matches Some(Err(e)) ==> status >= 400 && e.status == status && e.message@ == error_message(body@),
        r matches Some(Ok(d)) ==> status < 400 && lines_view(d.lines@) == list_lines(body@)
            && pairs_view(d.cells@) == list_cells(body@),
{
    if status >= 400 {
        return Some(list_output(status, body));
    }
    let fields = list_field_names();
    match array_rows(body, "results", &fields) {
        Some(rows) => {
            proof {
                lemma_column_clippable(body@, "results"@, list_fields(), 1, 30, rows_view(rows@));
            }
            if !column_fits(&rows, 1, 30) {
                return None;
            }
        },
        None => {},
    }
    Some(list_output(status, body))
}

// ── badge themes ────────────────────────────────

/// The members of a badge theme that are shown.
pub open spec fn theme_fields() -> Seq<Seq<char>> {
    seq!["slug"@, "name"@, "category"@, "preview_url"@]
}

pub open spec fn themes_header() -> Seq<char> {
    row_text(seq![left("Slug"@, 20), left("Name"@, 25), left("Category"@, 12), left("Preview URL"@, 0)])
}

pub open spec fn themes_rule() -> Seq<char> {
    row_text(seq![left(rule(20), 20), left(rule(25), 25), left(rule(12), 12), left(rule(40), 0)])
}

/// One theme: slug, name cut to 25 bytes, category and preview URL.
pub open spec fn theme_row(cells: Seq<Option<Seq<char>>>) -> Seq<char> {
    row_text(seq![left(or_dash(cells[0]), 20), left(clipped_text(or_dash(cells[1]), 25), 25),
        left(or_dash(cells[2]), 12), left(or_dash(cells[3]), 0)])
}

/// The theme table under the count heading: the header and one row per
/// theme of the `themes` array (none when there is no such array).
pub open spec fn themes_lines(body: Seq<char>) -> Seq<Seq<char>> {
    seq![themes_header(), themes_rule()] + match json_array_rows(body, "themes"@, theme_fields()) {
        Some(rows) => rows.map_values(|r: Seq<Option<Seq<char>>>| theme_row(r)),
        None => Seq::empty(),
    }
}

/// Whether every theme name can be cut to 25 bytes.
pub open spec fn names_clippable(body: Seq<char>) -> bool {
    column_clippable(body, "themes"@, theme_fields(), 1, 25)
}

fn theme_field_names() -> (fields: Vec<String>)
    ensures
        fields@.len() == 4,
        strings_view(fields@) == theme_fields(),
{
    let fields = vec![String::from_str("slug"), String::from_str("name"), String::from_str("category"),
        String::from_str("preview_url")];
    assert(strings_view(fields@) =~= theme_fields());
    fields
}

fn four_cells(a: String, aw: usize, b: String, bw: usize, c: String, cw: usize, d: String) -> (row: String)
    ensures
        row@ == row_text(seq![left(a@, aw as nat), left(b@, bw as nat), left(c@, cw as nat), left(d@, 0)]),
{
    let cells = vec![(a, aw, Align::Left), (b, bw, Align::Left), (c, cw, Align::Left), (d, 0, Align::Left)];
    let row = table_row(&cells);
    assert(cells_view(cells@) =~= seq![left(a@, aw as nat), left(b@, bw as nat), left(c@, cw as nat), left(d@, 0)]);
    row
}

/// The theme table of `badge themes` (see [`themes_lines`]); for status
/// 400 and above the error of [`handle_response`].  A name that would be
/// cut inside a character is left out by `requires`; see
/// [`themes_display`].
pub fn themes_output(status: u16, body: &str) -> (r: Result<Vec<String>, ApiError>)
    requires
        status < 400 ==> names_clippable(body@),
    ensures
        status >= 400 ==> (r matches Err(e) && e.status == status && e.message@ == error_message(body@)),
        status < 400 ==> (r matches Ok(v) && lines_view(v@) == themes_lines(body@)),
{
    let doc = match handle_response(status, body) {
        Ok(d) => d,
        Err(e) => return Err(e),
    };
    let mut lines: Vec<String> = Vec::new();
    lines.push(four_cells(String::from_str("Slug"), 20, String::from_str("Name"), 25, String::from_str("Category"),
        12, String::from_str("Preview URL")));
    lines.push(four_cells(rule_exec(20), 20, rule_exec(25), 25, rule_exec(12), 12, rule_exec(40)));
    let ghost prefix = lines_view(lines@);
    assert(prefix =~= seq![themes_header(), themes_rule()]);
    let fields = theme_field_names();
    let rows = match array_rows(doc.as_str(), "themes", &fields) {
        Some(rows) => rows,
        None => {
            assert(lines_view(lines@) =~= themes_lines(body@));
            return Ok(lines);
        },
    };
    let ghost rv = rows_view(rows@);
    proof {
        lemma_column_clippable(body@, "themes"@, theme_fields(), 1, 25, rv);
    }
    let mut i: usize = 0;
    while i < rows.len()
        invariant
            i <= rows@.len(),
            rv == rows_view(rows@),
            json_array_rows(body@, "themes"@, theme_fields()) == Some(rv),
            cells_clippable(rv, 1, 25),
            forall|k: int| 0 <= k < rows@.len() ==> (#[trigger] rows@[k])@.len() == 4,
            lines_view(lines@) == prefix + rv.take(i as int).map_values(|r: Seq<Option<Seq<char>>>| theme_row(r)),
        decreases rows@.len() - i,
    {
        let row = &rows[i];
        assert(rv[i as int] == cells_of(row@));
        let name = or_dash_exec(&row[1]);
        let clipped = clip_bytes(name.as_str(), 25);
        let line = four_cells(or_dash_exec(&row[0]), 20, clipped, 25, or_dash_exec(&row[2]), 12, or_dash_exec(&row[3]));
        assert(line@ == theme_row(rv[i as int]));
        let ghost before = lines@;
        lines.push(line);
        proof {
            assert(lines_view(lines@) =~= lines_view(before).push(theme_row(rv[i as int])));
            assert(rv.take(i + 1).map_values(|r: Seq<Option<Seq<char>>>| theme_row(r))
                =~= rv.take(i as int).map_values(|r: Seq<Option<Seq<char>>>| theme_row(r)).push(theme_row(rv[i as int])));
            assert(lines_view(lines@) =~= prefix + rv.take(i + 1).map_values(|r: Seq<Option<Seq<char>>>| theme_row(r)));
        }
        i = i + 1;
    }
    assert(rv.take(i as int) =~= rv);
    Ok(lines)
}

/// The theme table when no name would be cut inside a character; `None`
/// when one would.
pub fn themes_display(status: u16, body: &str) -> (r: Option<Result<Vec<String>, ApiError>>)
    ensures
        r is None <==> (status < 400 && !names_clippable(body@)),
        r matches Some(Err(e)) ==> status >= 400 && e.status == status && e.message@ == error_message(body@),
        r matches Some(Ok(v)) ==> status < 400 && lines_view(v@) == themes_lines(body@),
{
    if status >= 400 {
        return Some(themes_output(status, body));
    }
    let fields = theme_field_names();
    match array_rows(body, "themes", &fields) {
        Some(rows) => {
            proof {
                lemma_column_clippable(body@, "themes"@, theme_fields(), 1, 25, rows_view(rows@));
            }
            if !column_fits(&rows, 1, 25) {
                return None;
            }
        },
        None => {},
    }
    Some(themes_output(status, body))
}

// ── generation jobs ─────────────────────────────

/// The members of a generated GIF that are shown.
pub open spec fn gif_fields() -> Seq<Seq<char>> {
    seq!["id"@, "title"@, "url"@]
}

pub open spec fn gif_header() -> Seq<char> {
    row_text(seq![left("ID"@, 10), left("Title"@, 30), left("URL"@, 0)])
}

pub open spec fn gif_rule() -> Seq<char> {
    row_text(seq![left(rule(10), 10), left(rule(30), 30), left(rule(40), 0)])
}

/// One generated GIF: its id, title and URL (titles are not cut).
pub open spec fn gif_row(cells: Seq<Option<Seq<char>>>) -> Seq<char> {
    row_text(seq![left(or_dash(cells[0]), 10), left(or_dash(cells[1]), 30), left(or_dash(cells[2]), 0)])
}

/// The table of generated GIFs: an empty line, the header, one row each.
pub open spec fn gif_table(rows: Seq<Seq<Option<Seq<char>>>>) -> Seq<Seq<char>> {
    seq![Seq::empty(), gif_header(), gif_rule()] + rows.map_values(|r: Seq<Option<Seq<char>>>| gif_row(r))
}

/// The table of a job document's `gifs` array, or `None` when it has none.
pub open spec fn gif_table_of(body: Seq<char>) -> Option<Seq<Seq<char>>> {
    match json_array_rows(body, "gifs"@, gif_fields()) {
        Some(rows) => Some(gif_table(rows)),
        None => None,
    }
}

pub open spec fn opt_lines_view(o: Option<Vec<String>>) -> Option<Seq<Seq<char>>> {
    match o {
        Some(v) => Some(lines_view(v@)),
        None => None,
    }
}

/// See [`gif_table_of`].
pub fn gif_table_lines(body: &str) -> (table: Option<Vec<String>>)
    ensures
        opt_lines_view(table) == gif_table_of(body@),
        table matches Some(t) ==> (t@.len() > 3 <==> json_array_rows(body@, "gifs"@, gif_fields())->0.len() > 0),
{
    let fields = vec![String::from_str("id"), String::from_str("title"), String::from_str("url")];
    assert(strings_view(fields@) =~= gif_fields());
    let rows = match array_rows(body, "gifs", &fields) {
        Some(rows) => rows,
        None => return None,
    };
    let mut lines: Vec<String> = Vec::new();
    lines.push(String::new());
    lines.push(three_cells(String::from_str("ID"), 10, String::from_str("Title"), 30, String::from_str("URL")));
    lines.push(three_cells(rule_exec(10), 10, rule_exec(30), 30, rule_exec(40)));
    let ghost rv = rows_view(rows@);
    let ghost prefix = lines_view(lines@);
    assert(prefix =~= seq![Seq::empty(), gif_header(), gif_rule()]);
    let mut i: usize = 0;
    while i < rows.len()
        invariant
            i <= rows@.len(),
            rv == rows_view(rows@),
            forall|k: int| 0 <= k < rows@.len() ==> (#[trigger] rows@[k])@.len() == 3,
            lines_view(lines@) == prefix + rv.take(i as int).map_values(|r: Seq<Option<Seq<char>>>| gif_row(r)),
        decreases rows@.len() - i,
    {
        let row = &rows[i];
        assert(rv[i as int] == cells_of(row@));
        let line = three_cells(or_dash_exec(&row[0]), 10, or_dash_exec(&row[1]), 30, or_dash_exec(&row[2]));
        let ghost before = lines@;
        lines.push(line);
        proof {
            assert(lines_view(lines@) =~= lines_view(before).push(gif_row(rv[i as int])));
            assert(rv.take(i + 1).map_values(|r: Seq<Option<Seq<char>>>| gif_row(r))
                =~= rv.take(i as int).map_values(|r: Seq<Option<Seq<char>>>| gif_row(r)).push(gif_row(rv[i as int])));
            assert(lines_view(lines@) =~= prefix + rv.take(i + 1).map_values(|r: Seq<Option<Seq<char>>>| gif_row(r)));
        }
        i = i + 1;
    }
    assert(rv.take(i as int) =~= rv);
    Some(lines)
}

/// The lines of `generate-status` before its two counts: the job and its
/// `status` member (`-` when missing).
pub open spec fn status_head(job_id: Seq<char>, body: Seq<char>) -> Seq<Seq<char>> {
    seq!["Job:      "@ + job_id, "Status:   "@ + or_dash(json_member_string(body, "status"@))]
}

/// The lines of `generate-status` after its two counts: the job's
/// `error_message` when it is a non-empty string, then the table of its
/// GIFs when the `gifs` array is not empty.
pub open spec fn status_tail(body: Seq<char>) -> Seq<Seq<char>> {
    let error_part = match json_member_string(body, "error_message"@) {
        Some(m) => if m.len() > 0 { seq!["Error:    "@ + m] } else { Seq::empty() },
        None => Seq::empty(),
    };
    let table_part = match json_array_rows(body, "gifs"@, gif_fields()) {
        Some(rows) => if rows.len() > 0 { gif_table(rows) } else { Seq::empty() },
        None => Seq::empty(),
    };
    error_part + table_part
}

/// The text lines of a job's status display; the counts between `head`
/// and `tail` are printed by the caller.
#[derive(Debug)]
pub struct StatusDisplay {
    pub head: Vec<String>,
    pub tail: Vec<String>,
}

/// What `generate-status` prints for a job: for status 400 and above the
/// error of [`handle_response`]; otherwise [`status_head`] and
/// [`status_tail`].
pub fn status_display(job_id: &str, status: u16, body: &str) -> (r: Result<StatusDisplay, ApiError>)
    ensures
        status >= 400 ==> (r matches Err(e) && e.status == status && e.message@ == error_message(body@)),
        status < 400 ==> (r matches Ok(d) && lines_view(d.head@) == status_head(job_id@, body@)
            && lines_view(d.tail@) == status_tail(body@)),
{
    let doc = match handle_response(status, body) {
        Ok(d) => d,
        Err(e) => return Err(e),
    };
    let mut job_line = String::from_str("Job:      ");
    job_line.append(job_id);
    let mut status_line = String::from_str("Status:   ");
    let current = or_dash_exec(&member_string(doc.as_str(), "status"));
    status_line.append(current.as_str());
    let head = vec![job_line, status_line];
    assert(lines_view(head@) =~= status_head(job_id@, body@));
    let mut tail: Vec<String> = Vec::new();
    match member_string(doc.as_str(), "error_message") {
        Some(m) => {
            if !m.as_str().is_empty() {
                let mut line = String::from_str("Error:    ");
                line.append(m.as_str());
                tail.push(line);
            }
        },
        None => {},
    }
    let ghost error_part = lines_view(tail@);
    match gif_table_lines(doc.as_str()) {
        Some(table) => {
            if table.len() > 3 {
                let mut t = table;
                tail.append(&mut t);
            }
        },
        None => {},
    }
    assert(lines_view(tail@) =~= status_tail(body@));
    Ok(StatusDisplay { head, tail })
}

// ── short replies ───────────────────────────────

/// A string member of a document, or `-`.
pub open spec fn member_or_dash(body: Seq<char>, key: Seq<char>) -> Seq<char> {
    or_dash(json_member_string(body, key))
}

fn member_or_dash_exec(body: &str, key: &str) -> (t: String)
    ensures
        t@ == member_or_dash(body@, key@),
{
    or_dash_exec(&member_string(body, key))
}

/// What `whoami` prints before the upload count: `@<username> — <display
/// name>`, each `-` when missing.
pub open spec fn whoami_text(body: Seq<char>) -> Seq<char> {
    "@"@ + member_or_dash(body, "username"@) + " — "@ + member_or_dash(body, "display_name"@)
}

/// See [`whoami_text`]; for status 400 and above the error of
/// [`handle_response`].
pub fn whoami_line(status: u16, body: &str) -> (r: Result<String, ApiError>)
    ensures
        status >= 400 ==> (r matches Err(e) && e.status == status && e.message@ == error_message(body@)),
        status < 400 ==> (r matches Ok(t) && t@ == whoami_text(body@)),
{
    let doc = match handle_response(status, body) {
        Ok(d) => d,
        Err(e) => return Err(e),
    };
    let mut line = String::from_str("@");
    line.append(member_or_dash_exec(doc.as_str(), "username").as_str());
    line.append(" — ");
    line.append(member_or_dash_exec(doc.as_str(), "display_name").as_str());
    Ok(line)
}

/// What `update` prints: `✓ Updated <id>: <title>` (`-` when missing).
pub open spec fn updated_text(gif_id: Seq<char>, body: Seq<char>) -> Seq<char> {
    "✓ Updated "@ + gif_id + ": "@ + member_or_dash(body, "title"@)
}

/// See [`updated_text`]; for status 400 and above the error of
/// [`handle_response`].
pub fn updated_line(gif_id: &str, status: u16, body: &str) -> (r: Result<String, ApiError>)
    ensures
        status >= 400 ==> (r matches Err(e) && e.status == status && e.message@ == error_message(body@)),
        status < 400 ==> (r matches Ok(t) && t@ == updated_text(gif_id@, body@)),
{
    let doc = match handle_response(status, body) {
        Ok(d) => d,
        Err(e) => return Err(e),
    };
    let mut line = String::from_str("✓ Updated ");
    line.append(gif_id);
    line.append(": ");
    line.append(member_or_dash_exec(doc.as_str(), "title").as_str());
    Ok(line)
}

/// What an upload prints: `✓ Uploaded: <url>` (`-` when missing), then
/// `  Embed: <markdown>` when the `embed` object has a `markdown` string.
pub open spec fn uploaded_text(body: Seq<char>) -> Seq<Seq<char>> {
    let first = "✓ Uploaded: "@ + member_or_dash(body, "url"@);
    match lookup(embed_codes_of(body), "markdown"@) {
        Some(md) => seq![first, "  Embed: "@ + md],
        None => seq![first],
    }
}

/// See [`uploaded_text`]; for status 400 and above the error of
/// [`handle_response`].
pub fn uploaded_lines(status: u16, body: &str) -> (r: Result<Vec<String>, ApiError>)
    ensures
        status >= 400 ==> (r matches Err(e) && e.status == status && e.message@ == error_message(body@)),
        status < 400 ==> (r matches Ok(v) && lines_view(v@) == uploaded_text(body@)),
{
    let codes = match embed_codes_reply(status, body) {
        Ok(c) => c,
        Err(e) => return Err(e),
    };
    let mut first = String::from_str("✓ Uploaded: ");
    first.append(member_or_dash_exec(body, "url").as_str());
    let mut lines = vec![first];
    match codes.get("markdown") {
        Some(md) => {
            let mut line = String::from_str("  Embed: ");
            line.append(md.as_str());
            lines.push(line);
        },
        None => {},
    }
    assert(lines_view(lines@) =~= uploaded_text(body@));
    Ok(lines)
}

/// A created generation job: its `job_id` (empty when missing) and the
/// lines announcing it.
#[derive(Debug)]
pub struct JobCreated {
    pub job_id: String,
    pub lines: Vec<String>,
}

/// The lines announcing a created job: `Job created: <id>`, then
/// `  Status URL: <url>` when the reply has a `status_url` string.
pub open spec fn job_created_text(body: Seq<char>) -> Seq<Seq<char>> {
    let first = "Job created: "@ + member_or(body, "job_id"@, ""@);
    match json_member_string(body, "status_url"@) {
        Some(url) => seq![first, "  Status URL: "@ + url],
        None => seq![first],
    }
}

/// The reply to [`crate::client::Client::generate_tape`]: for status 400
/// and above the error of [`handle_response`]; otherwise the job id and
/// [`job_created_text`].
pub fn job_created(status: u16, body: &str) -> (r: Result<JobCreated, ApiError>)
    ensures
        status >= 400 ==> (r matches Err(e) && e.status == status && e.message@ == error_message(body@)),
        status < 400 ==> (r matches Ok(j) && j.job_id@ == member_or(body@, "job_id"@, ""@)
            && lines_view(j.lines@) == job_created_text(body@)),
{
    let doc = match handle_response(status, body) {
        Ok(d) => d,
        Err(e) => return Err(e),
    };
    proof {
        reveal_strlit("");
    }
    let job_id = match member_string(doc.as_str(), "job_id") {
        Some(id) => id,
        None => String::new(),
    };
    let mut first = String::from_str("Job created: ");
    first.append(job_id.as_str());
    let mut lines = vec![first];
    match member_string(doc.as_str(), "status_url") {
        Some(url) => {
            let mut line = String::from_str("  Status URL: ");
            line.append(url.as_str());
            lines.push(line);
        },
        None => {},
    }
    assert(lines_view(lines@) =~= job_created_text(body@));
    Ok(JobCreated { job_id, lines })
}

// ── laws ────────────────────────────────────────

/// A cell read from a reply is its text, or `-` when the member is missing.
pub proof fn law_or_dash(t: Seq<char>)
    ensures
        or_dash(Some(t)) == t,
        or_dash(None) == "-"@,
{
}

proof fn lemma_row3(a: (Seq<char>, nat, Align), b: (Seq<char>, nat, Align), c: (Seq<char>, nat, Align))
    ensures
        row_text(seq![a, b, c]) == padded(a.0, a.1, a.2) + "  "@ + padded(b.0, b.1, b.2) + "  "@ + padded(c.0, c.1, c.2),
{
    assert(seq![a, b, c].drop_last() =~= seq![a, b]);
    assert(seq![a, b].drop_last() =~= seq![a]);
    assert(row_text(seq![a]) == padded(a.0, a.1, a.2));
    assert(row_text(seq![a, b]) == padded(a.0, a.1, a.2) + "  "@ + padded(b.0, b.1, b.2));
}

proof fn lemma_row4(a: (Seq<char>, nat, Align), b: (Seq<char>, nat, Align), c: (Seq<char>, nat, Align),
    d: (Seq<char>, nat, Align))
    ensures
        row_text(seq![a, b, c, d]) == padded(a.0, a.1, a.2) + "  "@ + padded(b.0, b.1, b.2) + "  "@
            + padded(c.0, c.1, c.2) + "  "@ + padded(d.0, d.1, d.2),
{
    assert(seq![a, b, c, d].drop_last() =~= seq![a, b, c]);
    lemma_row3(a, b, c);
}

/// A search with results prints the heading `Search: <query> (<count>
/// results)`, an empty line, the table header and its rule, then one row
/// per result, in order: its `id` padded to 10 characters, its `title` cut
/// to 30 bytes and padded to 30, and its `command`, two spaces apart.  A
/// search without results prints `No results found.` alone.
pub proof fn law_search_lines(query: Seq<char>, body: Seq<char>)
    ensures
        ({
            let found = json_array_rows(body, "results"@, seq!["id"@, "title"@, "command"@]);
            let lines = search_lines(query, body);
            &&& (found is None || found->0.len() == 0) ==> lines == seq!["No results found."@]
            &&& (found is Some && found->0.len() > 0) ==> {
                &&& lines.len() == found->0.len() + 4
                &&& lines[0] == "Search: "@ + query + " ("@ + json_member_text(body, "count"@) + " results)"@
                &&& lines[1].len() == 0
                &&& forall|i: int| #![trigger found->0[i]] 0 <= i < found->0.len() ==> lines[i + 4]
                    == padded(or_dash(found->0[i][0]), 10, Align::Left) + "  "@
                    + padded(clipped_text(or_dash(found->0[i][1]), 30), 30, Align::Left) + "  "@ + or_dash(found->0[i][2])
            }
        }),
{
    assert(search_fields() =~= seq!["id"@, "title"@, "command"@]);
    let found = json_array_rows(body, "results"@, search_fields());
    if found is Some && found->0.len() > 0 {
        let rows = found->0;
        assert forall|i: int| #![trigger rows[i]] 0 <= i < rows.len() implies search_lines(query, body)[i + 4]
            == padded(or_dash(rows[i][0]), 10, Align::Left) + "  "@ + padded(clipped_text(or_dash(rows[i][1]), 30),
            30, Align::Left) + "  "@ + or_dash(rows[i][2]) by {
            lemma_row3(left(or_dash(rows[i][0]), 10), left(clipped_text(or_dash(rows[i][1]), 30), 30),
                left(or_dash(rows[i][2]), 0));
        }
    }
}

/// The table of generated GIFs is an empty line, the header and its rule,
/// then one row per GIF, in order: its `id` padded to 10 characters, its
/// `title` padded to 30 (not cut), and its `url`, two spaces apart.
pub proof fn law_gif_table(body: Seq<char>)
    ensures
        ({
            let found = json_array_rows(body, "gifs"@, seq!["id"@, "title"@, "url"@]);
            &&& found is None ==> gif_table_of(body) is None
            &&& found is Some ==> {
                let rows = found->0;
                let t = gif_table_of(body)->0;
                &&& gif_table_of(body) is Some
                &&& t.len() == rows.len() + 3
                &&& t[0].len() == 0
                &&& forall|i: int| #![trigger rows[i]] 0 <= i < rows.len() ==> t[i + 3]
                    == padded(or_dash(rows[i][0]), 10, Align::Left) + "  "@ + padded(or_dash(rows[i][1]), 30, Align::Left)
                    + "  "@ + or_dash(rows[i][2])
            }
        }),
{
    assert(gif_fields() =~= seq!["id"@, "title"@, "url"@]);
    let found = json_array_rows(body, "gifs"@, gif_fields());
    if found is Some {
        let rows = found->0;
        let t = gif_table_of(body)->0;
        assert forall|i: int| #![trigger rows[i]] 0 <= i < rows.len() implies t[i + 3]
            == padded(or_dash(rows[i][0]), 10, Align::Left) + "  "@ + padded(or_dash(rows[i][1]), 30, Align::Left)
            + "  "@ + or_dash(rows[i][2]) by {
            lemma_row3(left(or_dash(rows[i][0]), 10), left(or_dash(rows[i][1]), 30), left(or_dash(rows[i][2]), 0));
        }
    }
}

/// `generate-status` prints the job id and its `status` (`-` when
/// missing); after the counts, `Error:    <message>` exactly when the job
/// has a non-empty `error_message`, then the GIF table exactly when the
/// `gifs` array is not empty.
pub proof fn law_status_lines(job_id: Seq<char>, body: Seq<char>)
    ensures
        status_head(job_id, body) == seq!["Job:      "@ + job_id, "Status:   "@ + match json_member_string(body, "status"@) {
            Some(t) => t,
            None => "-"@,
        }],
        ({
            let err = json_member_string(body, "error_message"@);
            let has_error = err is Some && err->0.len() > 0;
            let found = json_array_rows(body, "gifs"@, seq!["id"@, "title"@, "url"@]);
            let has_table = found is Some && found->0.len() > 0;
            &&& has_error ==> status_tail(body)[0] == "Error:    "@ + err->0
            &&& has_table ==> status_tail(body) == (if has_error { seq!["Error:    "@ + err->0] } else { Seq::empty() })
                + gif_table_of(body)->0
            &&& !has_table ==> status_tail(body) == (if has_error { seq!["Error:    "@ + err->0] } else { Seq::empty() })
        }),
{
    assert(gif_fields() =~= seq!["id"@, "title"@, "url"@]);
}

/// The theme table is the header and its rule, then one row per theme, in
/// order: its `slug` padded to 20 characters, its `name` cut to 25 bytes
/// and padded to 25, its `category` padded to 12, and its `preview_url`,
/// two spaces apart.
pub proof fn law_themes_lines(body: Seq<char>)
    ensures
        ({
            let found = json_array_rows(body, "themes"@, seq!["slug"@, "name"@, "category"@, "preview_url"@]);
            let lines = themes_lines(body);
            &&& found is None ==> lines.len() == 2
            &&& found is Some ==> {
                let rows = found->0;
                &&& lines.len() == rows.len() + 2
                &&& forall|i: int| #![trigger rows[i]] 0 <= i < rows.len() ==> lines[i + 2]
                    == padded(or_dash(rows[i][0]), 20, Align::Left) + "  "@
                    + padded(clipped_text(or_dash(rows[i][1]), 25), 25, Align::Left) + "  "@
                    + padded(or_dash(rows[i][2]), 12, Align::Left) + "  "@ + or_dash(rows[i][3])
            }
        }),
{
    assert(theme_fields() =~= seq!["slug"@, "name"@, "category"@, "preview_url"@]);
    let found = json_array_rows(body, "themes"@, theme_fields());
    if found is Some {
        let rows = found->0;
        let lines = themes_lines(body);
        assert forall|i: int| #![trigger rows[i]] 0 <= i < rows.len() implies lines[i + 2]
            == padded(or_dash(rows[i][0]), 20, Align::Left) + "  "@
            + padded(clipped_text(or_dash(rows[i][1]), 25), 25, Align::Left) + "  "@
            + padded(or_dash(rows[i][2]), 12, Align::Left) + "  "@ + or_dash(rows[i][3]) by {
            lemma_row4(left(or_dash(rows[i][0]), 20), left(clipped_text(or_dash(rows[i][1]), 25), 25),
                left(or_dash(rows[i][2]), 12), left(or_dash(rows[i][3]), 0));
        }
    }
}

/// `list` gives, for each listed GIF in order, its `id` and its `title`
/// cut to 30 bytes (`-` when missing); with results it prints the heading
/// `My GIFs (<count>)` first, and without them `No GIFs found.` alone.
pub proof fn law_list(body: Seq<char>)
    ensures
        ({
            let found = json_array_rows(body, "results"@, seq!["id"@, "title"@]);
            &&& (found is None || found->0.len() == 0) ==> list_lines(body) == seq!["No GIFs found."@]
                && list_cells(body).len() == 0
            &&& (found is Some && found->0.len() > 0) ==> list_lines(body)[0] == "My GIFs ("@
                + json_member_text(body, "count"@) + ")"@
            &&& found is Some ==> list_cells(body).len() == found->0.len() && forall|i: int| #![trigger found->0[i]]
                0 <= i < found->0.len() ==> list_cells(body)[i] == (or_dash(found->0[i][0]),
                    clipped_text(or_dash(found->0[i][1]), 30))
        }),
{
    assert(list_fields() =~= seq!["id"@, "title"@]);
}

/// The short confirmations print what the reply holds under the expected
/// names: `whoami` its `username` and `display_name`, `update` the GIF's
/// `title`, an upload its `url` and the `markdown` of its `embed` object,
/// and a new job its `job_id` and `status_url`.
pub proof fn law_short_replies(gif_id: Seq<char>, body: Seq<char>)
    ensures
        whoami_text(body) == "@"@ + or_dash(json_member_string(body, "username"@)) + " — "@
            + or_dash(json_member_string(body, "display_name"@)),
        updated_text(gif_id, body) == "✓ Updated "@ + gif_id + ": "@ + or_dash(json_member_string(body, "title"@)),
        uploaded_text(body)[0] == "✓ Uploaded: "@ + or_dash(json_member_string(body, "url"@)),
        uploaded_text(body).len() == (if lookup(embed_codes_of(body), "markdown"@) is Some { 2int } else { 1int }),
        lookup(embed_codes_of(body), "markdown"@) is Some ==> uploaded_text(body)[1] == "  Embed: "@
            + lookup(embed_codes_of(body), "markdown"@)->0,
        job_created_text(body)[0] == "Job created: "@ + member_or(body, "job_id"@, ""@),
        job_created_text(body).len() == (if json_member_string(body, "status_url"@) is Some { 2int } else { 1int }),
        json_member_string(body, "status_url"@) is Some ==> job_created_text(body)[1] == "  Status URL: "@
            + json_member_string(body, "status_url"@)->0,
{
}

} // verus!
