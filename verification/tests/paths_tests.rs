use agentgif::cli::{record_output_path, record_title};
use agentgif::config::credentials_text;
use agentgif::paths::{file_name_or_empty, file_stem_or_empty, with_gif_extension};
use agentgif::{save_credentials, Config};

#[test]
fn file_names_are_the_last_component() {
    assert_eq!(file_name_or_empty("demo.gif"), "demo.gif");
    assert_eq!(file_name_or_empty("a/b/demo.gif"), "demo.gif");
    assert_eq!(file_name_or_empty("/demo.gif"), "demo.gif");
    assert_eq!(file_name_or_empty("a/.."), "");
}

#[test]
fn stems_drop_the_last_extension() {
    assert_eq!(file_stem_or_empty("tapes/my-demo.tape"), "my-demo");
    assert_eq!(file_stem_or_empty("a.b.tape"), "a.b");
    assert_eq!(file_stem_or_empty(".hidden"), ".hidden");
    assert_eq!(file_stem_or_empty("plain"), "plain");
}

#[test]
fn gif_extension_replaces_or_adds() {
    assert_eq!(with_gif_extension("tapes/demo.tape"), "tapes/demo.gif");
    assert_eq!(with_gif_extension("demo"), "demo.gif");
    assert_eq!(with_gif_extension(".hidden"), ".hidden.gif");
    assert_eq!(with_gif_extension("a.b.tape"), "a.b.gif");
}

#[test]
fn record_uses_output_line_or_sibling_gif() {
    assert_eq!(record_output_path("t/demo.tape", "Output out/x.gif\nType ls\n"), "out/x.gif");
    assert_eq!(record_output_path("t/demo.tape", "Type ls\n"), "t/demo.gif");
    assert_eq!(record_title("t/my_first-demo.tape"), "my first demo");
    assert_eq!(record_title("a/.."), "");
}

#[test]
fn credentials_text_leaves_out_empty_fields() {
    assert_eq!(credentials_text(&Config::default()), "{}\n");
    let both = save_credentials(Config::default(), "k1", "ann");
    assert_eq!(credentials_text(&both), "{\n  \"api_key\": \"k1\",\n  \"username\": \"ann\"\n}\n");
    let key_only = save_credentials(Config::default(), "k1", "");
    assert_eq!(credentials_text(&key_only), "{\n  \"api_key\": \"k1\"\n}\n");
}
