use obsidian_copy::{Copier, CopyError, Document};

fn strs(xs: &[&str]) -> Vec<String> {
    xs.iter().map(|s| s.to_string()).collect()
}

fn doc(path: &str, content: &str) -> Document {
    Document { path: path.to_string(), content: content.to_string() }
}

#[test]
fn tagged_note_and_its_embed_are_selected() {
    let mut copier = Copier::new("vault".to_string(), "out".to_string());
    copier.include_tags(strs(&["keep"]));
    let vault = strs(&["vault/A.md", "vault/B.md", "vault/img.png"]);
    let documents = vec![
        doc("vault/A.md", "---\ntags:\n- keep\n---\n![[img.png]]\n"),
        doc("vault/B.md", "---\ntags:\n- drop\n---\nno references here\n"),
    ];
    let r = copier.index(vault, documents);
    assert!(r.is_ok());
    let mut selected = copier.to_copy.clone();
    selected.sort();
    assert_eq!(selected, strs(&["vault/A.md", "vault/img.png"]));
}

#[test]
fn untagged_vault_selects_nothing() {
    let mut copier = Copier::new("vault".to_string(), "out".to_string());
    copier.include_tags(strs(&["keep"]));
    let vault = strs(&["vault/B.md"]);
    let documents = vec![doc("vault/B.md", "---\ntags:\n- drop\n---\n")];
    assert!(copier.index(vault, documents).is_ok());
    assert!(copier.to_copy.is_empty());
}

#[test]
fn excluded_tag_wins_over_included() {
    let mut copier = Copier::new("v".to_string(), "o".to_string());
    copier.include_tags(strs(&["keep"]));
    copier.exclude_tags(strs(&["secret"]));
    let vault = strs(&["v/A.md"]);
    let documents = vec![doc("v/A.md", "---\ntags:\n- keep\n- secret\n---\n")];
    assert!(copier.index(vault, documents).is_ok());
    assert!(copier.to_copy.is_empty());
}

#[test]
fn link_reference_pulls_in_target_document() {
    let mut copier = Copier::new("v".to_string(), "o".to_string());
    copier.include_tags(strs(&["keep"]));
    let vault = strs(&["v/A.md", "v/Other.md"]);
    let documents = vec![
        doc("v/A.md", "---\ntags:\n- keep\n---\nsee [[Other]] for more\n"),
        doc("v/Other.md", "no metadata\n"),
    ];
    assert!(copier.index(vault, documents).is_ok());
    let mut selected = copier.to_copy.clone();
    selected.sort();
    assert_eq!(selected, strs(&["v/A.md", "v/Other.md"]));
}

#[test]
fn unresolved_reference_is_silently_dropped() {
    let mut copier = Copier::new("v".to_string(), "o".to_string());
    copier.include_tags(strs(&["keep"]));
    let vault = strs(&["v/A.md"]);
    let documents = vec![doc("v/A.md", "---\ntags:\n- keep\n---\n![[missing.png]]\n")];
    assert!(copier.index(vault, documents).is_ok());
    assert_eq!(copier.to_copy, strs(&["v/A.md"]));
}

#[test]
fn same_attachment_is_selected_once() {
    let mut copier = Copier::new("v".to_string(), "o".to_string());
    copier.include_tags(strs(&["keep"]));
    let vault = strs(&["v/A.md", "v/B.md", "v/img.png"]);
    let documents = vec![
        doc("v/A.md", "---\ntags:\n- keep\n---\n![[img.png]]\n"),
        doc("v/B.md", "---\ntags:\n- keep\n---\n![[img.png]]\n"),
    ];
    assert!(copier.index(vault, documents).is_ok());
    let mut selected = copier.to_copy.clone();
    selected.sort();
    assert_eq!(selected, strs(&["v/A.md", "v/B.md", "v/img.png"]));
}

#[test]
fn malformed_metadata_aborts_with_decode_error() {
    let mut copier = Copier::new("v".to_string(), "o".to_string());
    copier.include_tags(strs(&["keep"]));
    let vault = strs(&["v/A.md"]);
    let documents = vec![doc("v/A.md", "---\n{\n---\n")];
    match copier.index(vault, documents) {
        Err(CopyError::FrontmatterDecodeError { path }) => assert_eq!(path, "v/A.md"),
        other => panic!("expected a frontmatter decode failure, got {:?}", other.is_ok()),
    }
}

#[test]
fn copy_plan_rebases_paths_under_destination() {
    let mut copier = Copier::new("vault".to_string(), "out".to_string());
    copier.include_tags(strs(&["keep"]));
    let vault = strs(&["vault/A.md", "vault/img.png"]);
    let documents = vec![doc("vault/A.md", "---\ntags:\n- keep\n---\n![[img.png]]\n")];
    assert!(copier.index(vault, documents).is_ok());
    let mut plan = copier.copy_plan().unwrap();
    plan.sort();
    assert_eq!(
        plan,
        vec![
            ("vault/A.md".to_string(), "out/A.md".to_string()),
            ("vault/img.png".to_string(), "out/img.png".to_string()),
        ]
    );
}

#[test]
fn copy_plan_handles_trailing_slash_root() {
    let mut copier = Copier::new("vault/".to_string(), "out".to_string());
    copier.include_tags(strs(&["keep"]));
    let vault = strs(&["vault/n/A.md"]);
    let documents = vec![doc("vault/n/A.md", "---\ntags:\n- keep\n---\n")];
    assert!(copier.index(vault, documents).is_ok());
    let plan = copier.copy_plan().unwrap();
    assert_eq!(
        plan,
        vec![("vault/n/A.md".to_string(), "out/n/A.md".to_string())]
    );
}

#[test]
fn copy_plan_rejects_file_outside_root() {
    let mut copier = Copier::new("vault".to_string(), "out".to_string());
    copier.include_tags(strs(&["keep"]));
    let vault = strs(&["elsewhere/A.md"]);
    let documents = vec![doc("elsewhere/A.md", "---\ntags:\n- keep\n---\n")];
    assert!(copier.index(vault, documents).is_ok());
    assert!(copier.copy_plan().is_none());
}

#[test]
fn error_variants_carry_their_paths() {
    let e = CopyError::ReadError { path: "p".to_string() };
    assert!(matches!(e, CopyError::ReadError { path } if path == "p"));
    let e = CopyError::CopyError { from: "a".to_string(), to: "b".to_string() };
    assert!(matches!(e, CopyError::CopyError { from, to } if from == "a" && to == "b"));
    let e = CopyError::PathDoesNotExist { path: "p".to_string() };
    assert!(matches!(e, CopyError::PathDoesNotExist { path } if path == "p"));
    let e = CopyError::WalkDirError { path: "p".to_string() };
    assert!(matches!(e, CopyError::WalkDirError { path } if path == "p"));
    let e = CopyError::MetadataContentError { path: "p".to_string() };
    assert!(matches!(e, CopyError::MetadataContentError { path } if path == "p"));
}
