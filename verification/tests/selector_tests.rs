use obsidian_copy::{decode_tags, note_included};

fn strs(xs: &[&str]) -> Vec<String> {
    xs.iter().map(|s| s.to_string()).collect()
}

#[test]
fn tag_in_inclusion_set_selects() {
    assert!(note_included(&strs(&["a", "b"]), &strs(&["b"]), &strs(&[])));
}

#[test]
fn tag_in_exclusion_set_rejects() {
    assert!(!note_included(&strs(&["a", "b"]), &strs(&["b"]), &strs(&["a"])));
}

#[test]
fn no_tags_with_nonempty_inclusion_set_rejects() {
    assert!(!note_included(&strs(&[]), &strs(&["b"]), &strs(&[])));
}

#[test]
fn empty_inclusion_set_never_selects() {
    assert!(!note_included(&strs(&["a", "b"]), &strs(&[]), &strs(&[])));
}

#[test]
fn empty_inclusion_and_exclusion_sets_never_select() {
    assert!(!note_included(&strs(&[]), &strs(&[]), &strs(&[])));
}

#[test]
fn tags_sequence_is_decoded() {
    assert_eq!(
        decode_tags("tags:\n- a\n- b\n"),
        Some(strs(&["a", "b"]))
    );
}

#[test]
fn empty_metadata_text_has_no_tags() {
    assert_eq!(decode_tags(""), Some(vec![]));
}

#[test]
fn missing_tags_key_has_no_tags() {
    assert_eq!(decode_tags("title: hello\n"), Some(vec![]));
}

#[test]
fn non_sequence_tags_value_has_no_tags() {
    assert_eq!(decode_tags("tags: 5\n"), Some(vec![]));
}

#[test]
fn non_string_tag_entries_are_dropped() {
    assert_eq!(decode_tags("tags:\n- a\n- 5\n- b\n"), Some(strs(&["a", "b"])));
}

#[test]
fn malformed_metadata_text_fails_to_decode() {
    assert_eq!(decode_tags("{"), None);
}
