use theme_installer::extractor::{build_catalog, extract_repository_url};

#[test]
fn extracts_unquoted_url() {
    let text = "+++\ntitle = \"Anubis\"\nrepository = https://example.org/anubis.git\n+++\n";
    assert_eq!(
        extract_repository_url(text),
        Some("https://example.org/anubis.git".to_string())
    );
}

#[test]
fn takes_text_after_first_equals_only() {
    let text = "repository = a=b\nnext = c\n";
    assert_eq!(extract_repository_url(text), Some("a=b".to_string()));
}

#[test]
fn stops_at_end_of_line() {
    let text = "pre repository = https://x\nrepository = https://y\n";
    assert_eq!(extract_repository_url(text), Some("https://x".to_string()));
}

#[test]
fn final_line_without_terminator() {
    let text = "repository = https://x";
    assert_eq!(extract_repository_url(text), Some("https://x".to_string()));
}

#[test]
fn missing_token_yields_nothing() {
    assert_eq!(extract_repository_url("title = \"x\"\n"), None);
}

#[test]
fn token_without_equals_yields_nothing() {
    assert_eq!(extract_repository_url("repository\nurl = https://x\n"), None);
}

#[test]
fn bad_entries_are_omitted_and_the_rest_survive() {
    let items: Vec<(String, Option<String>)> = vec![
        ("good".to_string(), Some("repository = https://a\n".to_string())),
        ("noindex".to_string(), None),
        ("norepo".to_string(), Some("just some prose\n".to_string())),
        ("good2".to_string(), Some("x\nrepository = https://b\n".to_string())),
    ];
    let catalog = build_catalog(&items);
    assert_eq!(catalog.entries.len(), 2);
    assert_eq!(catalog.entries[0].name, "good");
    assert_eq!(catalog.entries[0].repository_url, "https://a");
    assert_eq!(catalog.entries[1].name, "good2");
    assert_eq!(catalog.entries[1].repository_url, "https://b");
}

#[test]
fn empty_listing_yields_empty_catalog() {
    let items: Vec<(String, Option<String>)> = Vec::new();
    assert_eq!(build_catalog(&items).entries.len(), 0);
}
