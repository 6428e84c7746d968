use obsidian_copy::ObsidianNoteReference;

#[test]
fn full_reference_recovers_all_parts() {
    let r = ObsidianNoteReference::from_str("folder/Note#Intro|See this");
    assert_eq!(r.file.as_deref(), Some("folder/Note"));
    assert_eq!(r.section.as_deref(), Some("Intro"));
    assert_eq!(r.label.as_deref(), Some("See this"));
}

#[test]
fn plain_reference_has_no_section_or_label() {
    let r = ObsidianNoteReference::from_str("Note");
    assert_eq!(r.file.as_deref(), Some("Note"));
    assert_eq!(r.section, None);
    assert_eq!(r.label, None);
}

#[test]
fn file_and_section_are_trimmed() {
    let r = ObsidianNoteReference::from_str("  My Note  # Heading |label");
    assert_eq!(r.file.as_deref(), Some("My Note"));
    assert_eq!(r.section.as_deref(), Some("Heading"));
    assert_eq!(r.label.as_deref(), Some("label"));
}

#[test]
fn label_is_verbatim() {
    let r = ObsidianNoteReference::from_str("a|  spaced label ");
    assert_eq!(r.file.as_deref(), Some("a"));
    assert_eq!(r.label.as_deref(), Some("  spaced label "));
}

#[test]
fn section_only_reference() {
    let r = ObsidianNoteReference::from_str("#Heading");
    assert_eq!(r.file, None);
    assert_eq!(r.section.as_deref(), Some("Heading"));
    assert_eq!(r.label, None);
}

#[test]
fn label_only_reference() {
    let r = ObsidianNoteReference::from_str("|Label");
    assert_eq!(r.file, None);
    assert_eq!(r.section, None);
    assert_eq!(r.label.as_deref(), Some("Label"));
}

#[test]
fn empty_reference_is_all_absent() {
    let r = ObsidianNoteReference::from_str("");
    assert_eq!(r.file, None);
    assert_eq!(r.section, None);
    assert_eq!(r.label, None);
}

#[test]
fn section_runs_to_first_pipe() {
    let r = ObsidianNoteReference::from_str("a#b#c|d");
    assert_eq!(r.file.as_deref(), Some("a"));
    assert_eq!(r.section.as_deref(), Some("b#c"));
    assert_eq!(r.label.as_deref(), Some("d"));
}

#[test]
fn pipe_before_hash_means_no_section() {
    let r = ObsidianNoteReference::from_str("a|b#c");
    assert_eq!(r.file.as_deref(), Some("a"));
    assert_eq!(r.section, None);
    assert_eq!(r.label.as_deref(), Some("b#c"));
}

#[test]
fn empty_section_before_label_is_absent() {
    let r = ObsidianNoteReference::from_str("a#|c");
    assert_eq!(r.file.as_deref(), Some("a"));
    assert_eq!(r.section, None);
    assert_eq!(r.label.as_deref(), Some("c"));
}

#[test]
fn trailing_hash_yields_no_section() {
    let r = ObsidianNoteReference::from_str("a#");
    assert_eq!(r.file.as_deref(), Some("a"));
    assert_eq!(r.section, None);
    assert_eq!(r.label, None);
}

#[test]
fn trailing_pipe_yields_no_label() {
    let r = ObsidianNoteReference::from_str("a|");
    assert_eq!(r.file.as_deref(), Some("a"));
    assert_eq!(r.section, None);
    assert_eq!(r.label, None);
}

#[test]
fn whitespace_only_file_part_trims_to_empty() {
    let r = ObsidianNoteReference::from_str("  |label");
    assert_eq!(r.file.as_deref(), Some(""));
    assert_eq!(r.section, None);
    assert_eq!(r.label.as_deref(), Some("label"));
}
