use theme_installer::catalog::{ThemeCatalog, ThemeEntry};

fn entry(name: &str, url: &str) -> ThemeEntry {
    ThemeEntry { name: name.to_string(), repository_url: url.to_string() }
}

#[test]
fn lookup_is_case_insensitive() {
    let mut c = ThemeCatalog::new();
    c.add(entry("Anubis", "https://example.org/anubis.git"));
    let lower = c.find("anubis").expect("lower-case query must hit");
    assert_eq!(lower.name, "Anubis");
    assert_eq!(lower.repository_url, "https://example.org/anubis.git");
    let upper = c.find("ANUBIS").expect("upper-case query must hit");
    assert_eq!(upper.name, "Anubis");
}

#[test]
fn lookup_hits_lower_case_entry_from_upper_case_query() {
    let mut c = ThemeCatalog::new();
    c.add(entry("anubis", "https://example.org/anubis.git"));
    assert!(c.find("ANUBIS").is_some());
}

#[test]
fn miss_returns_none() {
    let mut c = ThemeCatalog::new();
    c.add(entry("Anubis", "https://example.org/anubis.git"));
    assert!(c.find("anubi").is_none());
    assert!(ThemeCatalog::new().find("anything").is_none());
}

#[test]
fn first_match_wins_among_duplicates() {
    let mut c = ThemeCatalog::new();
    c.add(entry("Alpha", "https://example.org/first.git"));
    c.add(entry("alpha", "https://example.org/second.git"));
    let hit = c.find("ALPHA").expect("duplicate name must still hit");
    assert_eq!(hit.repository_url, "https://example.org/first.git");
}

#[test]
fn list_keeps_catalog_order() {
    let mut c = ThemeCatalog::new();
    c.add(entry("zzz", "u1"));
    c.add(entry("aaa", "u2"));
    c.add(entry("mmm", "u3"));
    assert_eq!(c.list(), vec!["zzz".to_string(), "aaa".to_string(), "mmm".to_string()]);
}
