use vstd::prelude::*;

use pulldown_cmark::{Event, Options, Parser, Tag, TagEnd};

verus! {

/// One unit of a tokenized document, as the reference scanner sees it. Only
/// three shapes matter: a text run, the start and end markers of the metadata
/// block; every other token shape is inert and carried as `Other`.
pub enum Token {
    Text(String),
    MetadataStart,
    MetadataEnd,
    Other,
}

/// Spec-level shape of a token.
pub ghost enum TokenView {
    Text(Seq<char>),
    MetadataStart,
    MetadataEnd,
    Other,
}

impl View for Token {
    type V = TokenView;

    open spec fn view(&self) -> TokenView {
        match self {
            Token::Text(s) => TokenView::Text(s@),
            Token::MetadataStart => TokenView::MetadataStart,
            Token::MetadataEnd => TokenView::MetadataEnd,
            Token::Other => TokenView::Other,
        }
    }
}

impl DeepView for Token {
    type V = TokenView;

    open spec fn deep_view(&self) -> TokenView {
        self@
    }
}

impl Clone for Token {
    fn clone(&self) -> (r: Self)
        ensures
            r@ == self@,
    {
        match self {
            Token::Text(s) => Token::Text(s.clone()),
            Token::MetadataStart => Token::MetadataStart,
            Token::MetadataEnd => Token::MetadataEnd,
            Token::Other => Token::Other,
        }
    }
}

/// The views of a token sequence.
pub open spec fn token_views(ts: Seq<Token>) -> Seq<TokenView> {
    ts.map_values(|t: Token| t@)
}

/// The token stream that the markup tokenizer yields for a document text,
/// with math, tables, footnotes, task lists, strikethrough and metadata
/// blocks recognized: a pure function of the text.
pub uninterp spec fn tokens_of(content: Seq<char>) -> Seq<TokenView>;

/// Relies on pulldown_cmark::Parser::new_ext: tokenizing a document is a pure
/// function of its text. Text runs keep their payload; the start and end of a
/// metadata block become the two marker tokens; everything else is inert.
#[verifier::external_body]
pub fn tokenize(content: &str) -> (r: Vec<Token>)
    ensures
        token_views(r@) == tokens_of(content@),
{
    let options = Options::ENABLE_MATH | Options::ENABLE_TABLES | Options::ENABLE_FOOTNOTES
        | Options::ENABLE_TASKLISTS | Options::ENABLE_STRIKETHROUGH
        | Options::ENABLE_YAML_STYLE_METADATA_BLOCKS;
    let mut out = Vec::new();
    for event in Parser::new_ext(content, options) {
        out.push(match event {
            Event::Text(t) => Token::Text(t.to_string()),
            Event::Start(Tag::MetadataBlock(_)) => Token::MetadataStart,
            Event::End(TagEnd::MetadataBlock(_)) => Token::MetadataEnd,
            _ => Token::Other,
        });
    }
    out
}

} // verus!
