use obsidian_copy::{is_markdown_file, lookup_filename_in_vault};

fn vault(paths: &[&str]) -> Vec<String> {
    paths.iter().map(|p| p.to_string()).collect()
}

#[test]
fn diacritics_are_not_stripped() {
    let v = vault(&["Notes/Café.md"]);
    assert_eq!(lookup_filename_in_vault("cafe", &v), None);
}

#[test]
fn exact_name_matches_with_extension_fallback() {
    let v = vault(&["Notes/Café.md"]);
    assert_eq!(
        lookup_filename_in_vault("Café", &v).as_deref(),
        Some("Notes/Café.md")
    );
}

#[test]
fn case_insensitive_match() {
    let v = vault(&["Notes/Café.md"]);
    assert_eq!(
        lookup_filename_in_vault("CAFÉ", &v).as_deref(),
        Some("Notes/Café.md")
    );
}

#[test]
fn explicit_extension_matches() {
    let v = vault(&["Notes/Café.md"]);
    assert_eq!(
        lookup_filename_in_vault("café.md", &v).as_deref(),
        Some("Notes/Café.md")
    );
}

#[test]
fn decomposed_reference_matches_composed_path() {
    // "Cafe" + COMBINING ACUTE ACCENT: NFC folds it to the composed form.
    let v = vault(&["Notes/Caf\u{00e9}.md"]);
    let needle = "Cafe\u{0301}";
    assert_eq!(
        lookup_filename_in_vault(needle, &v).as_deref(),
        Some("Notes/Caf\u{00e9}.md")
    );
}

#[test]
fn composed_reference_matches_decomposed_path() {
    let v = vault(&["Notes/Cafe\u{0301}.md"]);
    assert_eq!(
        lookup_filename_in_vault("Caf\u{00e9}", &v).as_deref(),
        Some("Notes/Cafe\u{0301}.md")
    );
}

#[test]
fn extension_fallback_for_partial_path() {
    let v = vault(&["vault/Daily/2024-01-01.md", "vault/Other.md"]);
    assert_eq!(
        lookup_filename_in_vault("Daily/2024-01-01", &v).as_deref(),
        Some("vault/Daily/2024-01-01.md")
    );
}

#[test]
fn suffix_must_start_at_segment_boundary() {
    let v = vault(&["a/ab.md"]);
    assert_eq!(lookup_filename_in_vault("b", &v), None);
}

#[test]
fn whole_trailing_segment_matches() {
    let v = vault(&["a/b.md"]);
    assert_eq!(lookup_filename_in_vault("b", &v).as_deref(), Some("a/b.md"));
}

#[test]
fn first_matching_path_wins() {
    let v = vault(&["x/n.md", "y/n.md"]);
    assert_eq!(lookup_filename_in_vault("n", &v).as_deref(), Some("x/n.md"));
}

#[test]
fn no_match_yields_none() {
    let v = vault(&["a/b.md"]);
    assert_eq!(lookup_filename_in_vault("missing", &v), None);
}

#[test]
fn markdown_detection_is_exact() {
    assert!(is_markdown_file(&"a/b.md".to_string()));
    assert!(is_markdown_file(&"b.md".to_string()));
    assert!(!is_markdown_file(&"a/b.txt".to_string()));
    assert!(!is_markdown_file(&"a/.md".to_string()));
    assert!(!is_markdown_file(&".md".to_string()));
    assert!(!is_markdown_file(&"README".to_string()));
    assert!(!is_markdown_file(&"x.MD".to_string()));
    assert!(!is_markdown_file(&"amd".to_string()));
}

#[test]
fn empty_file_text_matches_nothing() {
    let v = vault(&["a/b.md", "c.md"]);
    assert_eq!(lookup_filename_in_vault("", &v), None);
}
