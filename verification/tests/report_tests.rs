use agentgif::report::{
    gif_table_lines, info_output, job_created, list_display, list_output, search_display, search_output,
    status_display, themes_display, themes_output, updated_line, uploaded_lines, whoami_line,
};

const RULE10: &str = "──────────";
const RULE30: &str = "──────────────────────────────";

#[test]
fn search_empty_query_is_a_usage_error() {
    assert_eq!(search_output("", 200, "{}"), Err("Usage: agentgif search <query>".to_string()));
    assert_eq!(search_display("", 0, ""), Some(Err("Usage: agentgif search <query>".to_string())));
}

#[test]
fn search_error_reply_gives_the_error_line() {
    let r = search_output("cats", 404, r#"{"detail":"Not found."}"#);
    assert_eq!(r, Err("Error: API error 404: Not found.".to_string()));
}

#[test]
fn search_without_results_says_so() {
    let none = vec!["No results found.".to_string()];
    assert_eq!(search_output("cats", 200, r#"{"results":[],"count":0}"#), Ok(none.clone()));
    assert_eq!(search_output("cats", 200, r#"{"count":0}"#), Ok(none.clone()));
    assert_eq!(search_output("cats", 200, "not json"), Ok(none));
}

#[test]
fn search_lists_results_in_a_table() {
    let body = r#"{"count":2,"results":[
        {"id":"abc123","title":"Hello","command":"ls -la"},
        {"id":"x","title":"A title that is definitely longer than thirty bytes"}
    ]}"#;
    let lines = search_output("hello", 200, body).unwrap();
    assert_eq!(lines.len(), 6);
    assert_eq!(lines[0], "Search: hello (2 results)");
    assert_eq!(lines[1], "");
    assert_eq!(lines[2], format!("{:<10}  {:<30}  {}", "ID", "Title", "Command"));
    assert_eq!(lines[3], format!("{}  {}  {}", RULE10, RULE30, "─".repeat(20)));
    assert_eq!(lines[4], format!("{:<10}  {:<30}  {}", "abc123", "Hello", "ls -la"));
    assert_eq!(lines[5], format!("{:<10}  {:<30}  {}", "x", "A title that is definitely lon", "-"));
}

#[test]
fn search_count_is_printed_as_json() {
    let lines = search_output("q", 200, r#"{"results":[{"id":"1"}]}"#).unwrap();
    assert_eq!(lines[0], "Search: q (null results)");
    let lines = search_output("q", 200, r#"{"count":"7","results":[{"id":"1"}]}"#).unwrap();
    assert_eq!(lines[0], "Search: q (\"7\" results)");
}

#[test]
fn search_title_cut_inside_a_character_is_refused() {
    let title = format!("{}é", "a".repeat(29));
    let body = format!(r#"{{"count":1,"results":[{{"id":"1","title":"{title}"}}]}}"#);
    assert_eq!(search_display("q", 200, &body), None);
    let ok = format!(r#"{{"count":1,"results":[{{"id":"1","title":"{}é"}}]}}"#, "a".repeat(28));
    assert!(search_display("q", 200, &ok).is_some());
}

#[test]
fn info_pretty_prints_the_document() {
    assert_eq!(info_output(200, r#"{"id":"a","n":1}"#).unwrap(), "{\n  \"id\": \"a\",\n  \"n\": 1\n}");
    assert_eq!(info_output(200, "plain text").unwrap(), "null");
    let e = info_output(500, r#"{"error":"boom"}"#).unwrap_err();
    assert_eq!((e.status, e.message.as_str()), (500, "boom"));
}

#[test]
fn status_display_reads_status_error_and_gifs() {
    let body = r#"{"status":"failed","error_message":"no commands","gifs":[{"id":"g1","title":"T","url":"https://x/g1"}]}"#;
    let d = status_display("job9", 200, body).unwrap();
    assert_eq!(d.head, vec!["Job:      job9".to_string(), "Status:   failed".to_string()]);
    assert_eq!(d.tail[0], "Error:    no commands");
    assert_eq!(d.tail[1], "");
    assert_eq!(d.tail[2], format!("{:<10}  {:<30}  {}", "ID", "Title", "URL"));
    assert_eq!(d.tail[3], format!("{}  {}  {}", RULE10, RULE30, "─".repeat(40)));
    assert_eq!(d.tail[4], format!("{:<10}  {:<30}  {}", "g1", "T", "https://x/g1"));
    assert_eq!(d.tail.len(), 5);
}

#[test]
fn status_display_skips_empty_parts() {
    let d = status_display("j", 200, r#"{"error_message":"","gifs":[]}"#).unwrap();
    assert_eq!(d.head[1], "Status:   -");
    assert!(d.tail.is_empty());
    let e = status_display("j", 401, "denied").err().unwrap();
    assert_eq!((e.status, e.message.as_str()), (401, "denied"));
}

#[test]
fn gif_table_is_shown_for_an_empty_array_too() {
    assert_eq!(gif_table_lines(r#"{"gifs":[]}"#).map(|t| t.len()), Some(3));
    assert_eq!(gif_table_lines(r#"{"status":"completed"}"#), None);
}

#[test]
fn short_replies_read_their_members() {
    assert_eq!(whoami_line(200, r#"{"username":"ann","display_name":"Ann"}"#).unwrap(), "@ann — Ann");
    assert_eq!(whoami_line(200, "{}").unwrap(), "@- — -");
    assert_eq!(updated_line("g7", 200, r#"{"title":"New"}"#).unwrap(), "✓ Updated g7: New");
    assert_eq!(
        uploaded_lines(201, r#"{"url":"https://a/g","embed":{"markdown":"![g](u)","html":"<img>"}}"#).unwrap(),
        vec!["✓ Uploaded: https://a/g".to_string(), "  Embed: ![g](u)".to_string()]
    );
    assert_eq!(uploaded_lines(201, "{}").unwrap(), vec!["✓ Uploaded: -".to_string()]);
    let job = job_created(200, r#"{"job_id":"j1","status_url":"https://s/j1"}"#).unwrap();
    assert_eq!(job.job_id, "j1");
    assert_eq!(job.lines, vec!["Job created: j1".to_string(), "  Status URL: https://s/j1".to_string()]);
    assert_eq!(job_created(200, "{}").unwrap().job_id, "");
    assert_eq!(uploaded_lines(413, "too big").unwrap_err().message, "too big");
}

#[test]
fn list_reads_ids_and_cut_titles() {
    let body = r#"{"count":1,"results":[{"id":"g1","title":"A title that is definitely longer than thirty bytes","view_count":12}]}"#;
    let d = list_output(200, body).unwrap();
    assert_eq!(d.lines[0], "My GIFs (1)");
    assert_eq!(d.lines[1], "");
    assert_eq!(d.lines[2], format!("{:<10}  {:<30}  {:>6}", "ID", "Title", "Views"));
    assert_eq!(d.lines[3], format!("{}  {}  {}", RULE10, RULE30, "──────"));
    assert_eq!(d.cells, vec![("g1".to_string(), "A title that is definitely lon".to_string())]);
    let empty = list_output(200, r#"{"results":[]}"#).unwrap();
    assert_eq!(empty.lines, vec!["No GIFs found.".to_string()]);
    assert!(empty.cells.is_empty());
    assert_eq!(list_output(403, "no").unwrap_err().status, 403);
    let cut = format!(r#"{{"results":[{{"title":"{}é"}}]}}"#, "a".repeat(29));
    assert!(list_display(200, &cut).is_none());
}

#[test]
fn themes_table_cuts_names_at_25_bytes() {
    let body = r#"{"count":1,"themes":[{"slug":"dracula","name":"Dracula with a very long name indeed","category":"dark"}]}"#;
    let lines = themes_output(200, body).unwrap();
    assert_eq!(lines[0], format!("{:<20}  {:<25}  {:<12}  {}", "Slug", "Name", "Category", "Preview URL"));
    assert_eq!(lines[2], format!("{:<20}  {:<25}  {:<12}  {}", "dracula", "Dracula with a very long ", "dark", "-"));
    assert_eq!(lines.len(), 3);
    assert_eq!(themes_output(200, "{}").unwrap().len(), 2);
    let cut = format!(r#"{{"themes":[{{"name":"{}é"}}]}}"#, "a".repeat(24));
    assert!(themes_display(200, &cut).is_none());
}
