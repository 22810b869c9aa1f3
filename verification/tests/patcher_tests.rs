use theme_installer::patcher::{add_theme_line, change_theme_in_config};

#[test]
fn test_add_theme_line() {
    let mut theme = String::new();
    add_theme_line(&mut theme, "abc");
    assert_eq!(theme, "theme = \"abc\"\n");
    theme.clear();
    add_theme_line(&mut theme, "\"abc\"");
    assert_eq!(theme, "theme = \'\"abc\"\'\n");
}

#[test]
fn replaces_existing_theme_line() {
    let text = "title = \"x\"\ntheme = \"old\"\nfoo = 1\n";
    let out = change_theme_in_config("new", text.to_string());
    assert_eq!(out, "title = \"x\"\ntheme = \"new\"\n\nfoo = 1\n");
}

#[test]
fn replace_is_case_insensitive() {
    let text = "THEME = \"old\"\n";
    let out = change_theme_in_config("new", text.to_string());
    assert_eq!(out, "theme = \"new\"\n\n");
}

#[test]
fn replace_tolerates_spacing() {
    let text = "  Theme   = \"old\"\nfoo = 1\n";
    let out = change_theme_in_config("new", text.to_string());
    assert_eq!(out, "theme = \"new\"\n\nfoo = 1\n");
}

#[test]
fn other_theme_prefixed_keys_survive() {
    let text = "themes_dir = \"d\"\n";
    let out = change_theme_in_config("new", text.to_string());
    assert_eq!(out, "themes_dir = \"d\"\ntheme = \"new\"\n\n");
}

#[test]
fn inserts_before_first_section() {
    let text = "title = \"x\"\n[extra]\nfoo = 1\n";
    let out = change_theme_in_config("new", text.to_string());
    assert_eq!(out, "title = \"x\"\ntheme = \"new\"\n[extra]\nfoo = 1\n");
}

#[test]
fn appends_when_nothing_matches() {
    let text = "title = \"x\"\n";
    let out = change_theme_in_config("new", text.to_string());
    assert_eq!(out, "title = \"x\"\ntheme = \"new\"\n\n");
}

#[test]
fn appends_to_empty_document() {
    let out = change_theme_in_config("new", String::new());
    assert_eq!(out, "theme = \"new\"\n\n");
}

#[test]
fn carriage_returns_are_normalized() {
    let text = "title = \"x\"\r\ntheme = \"old\"\r\n";
    let out = change_theme_in_config("new", text.to_string());
    assert_eq!(out, "title = \"x\"\ntheme = \"new\"\n\n");
}

#[test]
fn end_to_end_scenario() {
    let text = "title = \"x\"\n\n[extra]\nfoo = 1\n";
    let out = change_theme_in_config("papaya", text.to_string());
    assert_eq!(out, "title = \"x\"\n\ntheme = \"papaya\"\n[extra]\nfoo = 1\n");
}

#[test]
fn quoting_round_trip() {
    let mut line = String::new();
    add_theme_line(&mut line, "ab\"c");
    let parsed: toml::Table = line.parse().expect("emitted line must parse as TOML");
    match parsed.get("theme").expect("theme key present") {
        toml::Value::String(s) => assert_eq!(s, "ab\"c"),
        other => panic!("expected a string value, got {:?}", other),
    }
}

#[test]
fn quoting_round_trip_plain_name() {
    let out = change_theme_in_config("papaya", String::new());
    let parsed: toml::Table = out.parse().expect("patched text must parse as TOML");
    match parsed.get("theme").expect("theme key present") {
        toml::Value::String(s) => assert_eq!(s, "papaya"),
        other => panic!("expected a string value, got {:?}", other),
    }
}
