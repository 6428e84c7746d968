use obsidian_copy::{scan_tokens, tokenize, RefParser, RefParserState, RefType, Token};

fn text(s: &str) -> Token {
    Token::Text(s.to_string())
}

#[test]
fn single_token_reference_is_recognized() {
    let tokens = vec![text("["), text("["), text("Foo_bar"), text("]"), text("]")];
    let out = scan_tokens(&tokens).unwrap();
    assert_eq!(out.refs.len(), 1);
    assert_eq!(out.refs[0].text, "Foo_bar");
    assert!(matches!(out.refs[0].kind, RefType::Link));
}

#[test]
fn split_reference_matches_like_single_token() {
    let split = vec![text("["), text("["), text("Foo"), text("_bar"), text("]"), text("]")];
    let joined = vec![text("["), text("["), text("Foo_bar"), text("]"), text("]")];
    let out_split = scan_tokens(&split).unwrap();
    let out_joined = scan_tokens(&joined).unwrap();
    assert_eq!(out_split.refs.len(), 1);
    assert_eq!(out_joined.refs.len(), 1);
    assert_eq!(out_split.refs[0].text, out_joined.refs[0].text);
}

#[test]
fn embed_reference_is_marked_embed() {
    let tokens = vec![text("!["), text("["), text("img.png"), text("]"), text("]")];
    let out = scan_tokens(&tokens).unwrap();
    assert_eq!(out.refs.len(), 1);
    assert_eq!(out.refs[0].text, "img.png");
    assert!(matches!(out.refs[0].kind, RefType::Embed));
}

#[test]
fn incomplete_reference_yields_no_match() {
    let tokens = vec![text("["), text("["), text("Foo"), Token::Other];
    let out = scan_tokens(&tokens).unwrap();
    assert_eq!(out.refs.len(), 0);
}

#[test]
fn incomplete_reference_does_not_corrupt_later_match() {
    let tokens = vec![
        text("["),
        text("["),
        text("Foo"),
        Token::Other,
        text("["),
        text("["),
        text("Bar"),
        text("]"),
        text("]"),
    ];
    let out = scan_tokens(&tokens).unwrap();
    assert_eq!(out.refs.len(), 1);
    assert_eq!(out.refs[0].text, "Bar");
}

#[test]
fn empty_reference_is_ignored() {
    let tokens = vec![text("["), text("["), text("]"), text("]")];
    let out = scan_tokens(&tokens).unwrap();
    assert_eq!(out.refs.len(), 0);
}

#[test]
fn close_bracket_after_match_starts_nothing() {
    let tokens = vec![text("["), text("["), text("A"), text("]"), text("]"), text("]")];
    let out = scan_tokens(&tokens).unwrap();
    assert_eq!(out.refs.len(), 1);
    assert_eq!(out.refs[0].text, "A");
}

#[test]
fn non_matching_tokens_pass_through() {
    let tokens = vec![text("hello"), Token::Other, text("world")];
    let out = scan_tokens(&tokens).unwrap();
    assert_eq!(out.refs.len(), 0);
    assert_eq!(out.events.len(), 3);
    assert!(matches!(&out.events[0], Token::Text(s) if s == "hello"));
    assert!(matches!(&out.events[1], Token::Other));
    assert!(matches!(&out.events[2], Token::Text(s) if s == "world"));
}

#[test]
fn false_start_is_flushed_downstream() {
    let tokens = vec![text("["), text("x"), text("y")];
    let out = scan_tokens(&tokens).unwrap();
    assert_eq!(out.refs.len(), 0);
    assert_eq!(out.events.len(), 3);
    assert!(matches!(&out.events[0], Token::Text(s) if s == "["));
    assert!(matches!(&out.events[1], Token::Text(s) if s == "x"));
    assert!(matches!(&out.events[2], Token::Text(s) if s == "y"));
}

#[test]
fn metadata_text_is_collected() {
    let tokens = vec![
        Token::MetadataStart,
        text("tags:\n- a\n"),
        Token::MetadataEnd,
        text("body"),
    ];
    let out = scan_tokens(&tokens).unwrap();
    assert_eq!(out.frontmatter, "tags:\n- a\n");
    assert_eq!(out.events.len(), 1);
}

#[test]
fn metadata_block_does_not_disturb_reference_state() {
    let tokens = vec![
        text("["),
        text("["),
        Token::MetadataStart,
        text("x"),
        Token::MetadataEnd,
        text("N"),
        text("]"),
        text("]"),
    ];
    let out = scan_tokens(&tokens).unwrap();
    assert_eq!(out.refs.len(), 1);
    assert_eq!(out.refs[0].text, "N");
}

#[test]
fn non_text_inside_metadata_is_rejected() {
    let tokens = vec![Token::MetadataStart, Token::Other];
    assert!(scan_tokens(&tokens).is_none());
}

#[test]
fn tokenizer_feeds_scanner() {
    let tokens = tokenize("hello *world* [[Note]]\n");
    let out = scan_tokens(&tokens).unwrap();
    assert_eq!(out.refs.len(), 1);
    assert_eq!(out.refs[0].text, "Note");
    assert!(matches!(out.refs[0].kind, RefType::Link));
}

#[test]
fn tokenizer_recognizes_metadata_block() {
    let tokens = tokenize("---\ntags:\n- keep\n---\nbody text\n");
    let out = scan_tokens(&tokens).unwrap();
    assert!(out.frontmatter.contains("tags:"));
    assert!(out.frontmatter.contains("- keep"));
}

#[test]
fn ref_parser_transitions_and_resets() {
    let mut p = RefParser::new();
    assert!(p.state == RefParserState::NoState);
    assert!(p.ref_type.is_none());
    assert_eq!(p.ref_text, "");
    p.ref_type = Some(RefType::Embed);
    p.transition(RefParserState::ExpectSecondOpenBracket);
    assert!(p.state == RefParserState::ExpectSecondOpenBracket);
    p.reset();
    assert!(p.state == RefParserState::NoState);
    assert!(p.ref_type.is_none());
    assert_eq!(p.ref_text, "");
}
