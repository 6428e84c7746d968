use vstd::prelude::*;

verus! {

use crate::references::{RefParser, RefParserState, RefType};
use crate::strings::{is_char1, is_char2};
use crate::tokens::{token_views, Token, TokenView};
use vstd::string::*;

/// A recognized reference: the raw text between the doubled brackets, and
/// whether the construct was a link or an embed.
pub struct RawRef {
    pub text: String,
    pub kind: RefType,
}

/// Spec-level shape of a recognized reference.
pub ghost struct RefEmit {
    pub text: Seq<char>,
    pub kind: RefType,
}

impl View for RawRef {
    type V = RefEmit;

    open spec fn view(&self) -> RefEmit {
        RefEmit { text: self.text@, kind: self.kind }
    }
}

impl DeepView for RawRef {
    type V = RefEmit;

    open spec fn deep_view(&self) -> RefEmit {
        self@
    }
}

/// Everything one scan of a document's token stream yields: the tokens that
/// passed through unconsumed, the recognized references, and the text of the
/// metadata block.
pub struct ScanOutcome {
    pub events: Vec<Token>,
    pub refs: Vec<RawRef>,
    pub frontmatter: String,
}

/// The full state of the reference scanner, including the metadata-block
/// collector, as one mathematical value.
pub ghost struct ScanState {
    pub state: RefParserState,
    pub kind: Option<RefType>,
    pub text: Seq<char>,
    pub buffer: Seq<TokenView>,
    pub events: Seq<TokenView>,
    pub refs: Seq<RefEmit>,
    pub frontmatter: Seq<char>,
    pub in_meta: bool,
    pub bad: bool,
}

pub open spec fn open1() -> Seq<char> {
    seq!['[']
}

pub open spec fn bang_open() -> Seq<char> {
    seq!['!', '[']
}

pub open spec fn close1() -> Seq<char> {
    seq![']']
}

/// The scanner's state at the start of a document.
pub open spec fn scan_init() -> ScanState {
    ScanState {
        state: RefParserState::NoState,
        kind: None,
        text: Seq::empty(),
        buffer: Seq::empty(),
        events: Seq::empty(),
        refs: Seq::empty(),
        frontmatter: Seq::empty(),
        in_meta: false,
        bad: false,
    }
}

/// One step of the scanner. Tokens inside the metadata block bypass the
/// state machine and feed the metadata text; a non-text token there is an
/// unsupported document and poisons the scan. Otherwise, a pending reset is
/// worked off first — buffered tokens flush downstream unchanged — and then
/// the token drives the state machine: only the exact text tokens `[`, `![`
/// and `]` are structurally significant.
pub open spec fn scan_step(m: ScanState, t: TokenView) -> ScanState {
    if m.bad {
        m
    } else if m.in_meta {
        match t {
            TokenView::Text(s) => ScanState { frontmatter: m.frontmatter + s, ..m },
            TokenView::MetadataEnd => ScanState { in_meta: false, ..m },
            _ => ScanState { bad: true, ..m },
        }
    } else if t is MetadataStart {
        ScanState { in_meta: true, ..m }
    } else {
        let m0 = if m.state is Resetting {
            ScanState {
                state: RefParserState::NoState,
                kind: None,
                text: Seq::empty(),
                events: m.events + m.buffer,
                buffer: Seq::empty(),
                ..m
            }
        } else {
            m
        };
        let m1 = ScanState { buffer: m0.buffer.push(t), ..m0 };
        match m1.state {
            RefParserState::NoState => match t {
                TokenView::Text(s) => if s == bang_open() {
                    ScanState {
                        kind: Some(RefType::Embed),
                        state: RefParserState::ExpectSecondOpenBracket,
                        ..m1
                    }
                } else if s == open1() {
                    ScanState {
                        kind: Some(RefType::Link),
                        state: RefParserState::ExpectSecondOpenBracket,
                        ..m1
                    }
                } else {
                    ScanState { events: m1.events.push(t), buffer: Seq::empty(), ..m1 }
                },
                _ => ScanState { events: m1.events.push(t), buffer: Seq::empty(), ..m1 },
            },
            RefParserState::ExpectSecondOpenBracket => match t {
                TokenView::Text(s) => if s == open1() {
                    ScanState { state: RefParserState::ExpectRefText, ..m1 }
                } else {
                    ScanState { state: RefParserState::Resetting, ..m1 }
                },
                _ => ScanState { state: RefParserState::Resetting, ..m1 },
            },
            RefParserState::ExpectRefText => match t {
                TokenView::Text(s) => if s == close1() {
                    ScanState { state: RefParserState::Resetting, ..m1 }
                } else {
                    ScanState {
                        text: m1.text + s,
                        state: RefParserState::ExpectRefTextOrCloseBracket,
                        ..m1
                    }
                },
                _ => ScanState { state: RefParserState::Resetting, ..m1 },
            },
            RefParserState::ExpectRefTextOrCloseBracket => match t {
                TokenView::Text(s) => if s == close1() {
                    ScanState { state: RefParserState::ExpectFinalCloseBracket, ..m1 }
                } else {
                    ScanState { text: m1.text + s, ..m1 }
                },
                _ => ScanState { state: RefParserState::Resetting, ..m1 },
            },
            RefParserState::ExpectFinalCloseBracket => match t {
                TokenView::Text(s) => if s == close1() {
                    let k = match m1.kind {
                        Some(k0) => k0,
                        None => RefType::Link,
                    };
                    ScanState {
                        refs: m1.refs.push(RefEmit { text: m1.text, kind: k }),
                        state: RefParserState::NoState,
                        kind: None,
                        text: Seq::empty(),
                        buffer: Seq::empty(),
                        ..m1
                    }
                } else {
                    ScanState { state: RefParserState::Resetting, ..m1 }
                },
                _ => ScanState { state: RefParserState::Resetting, ..m1 },
            },
            RefParserState::Resetting => m1,
        }
    }
}

/// The scanner's state after consuming the whole token sequence from `m`.
pub open spec fn scan_from(m: ScanState, ts: Seq<TokenView>) -> ScanState
    decreases ts.len(),
{
    if ts.len() == 0 {
        m
    } else {
        scan_from(scan_step(m, ts[0]), ts.drop_first())
    }
}

pub proof fn lemma_scan_from_snoc(m: ScanState, ts: Seq<TokenView>, t: TokenView)
    ensures
        scan_from(m, ts.push(t)) == scan_step(scan_from(m, ts), t),
    decreases ts.len(),
{
    reveal_with_fuel(scan_from, 3);
    if ts.len() == 0 {
        assert(ts.push(t)[0] == t);
        assert(ts.push(t).drop_first() =~= Seq::<TokenView>::empty());
    } else {
        assert(ts.push(t)[0] == ts[0]);
        assert(ts.push(t).drop_first() =~= ts.drop_first().push(t));
        lemma_scan_from_snoc(scan_step(m, ts[0]), ts.drop_first(), t);
    }
}

pub proof fn lemma_scan_from_concat(m: ScanState, x: Seq<TokenView>, y: Seq<TokenView>)
    ensures
        scan_from(m, x + y) == scan_from(scan_from(m, x), y),
    decreases x.len(),
{
    if x.len() == 0 {
        assert(x + y =~= y);
    } else {
        assert((x + y)[0] == x[0]);
        assert((x + y).drop_first() =~= x.drop_first() + y);
        lemma_scan_from_concat(scan_step(m, x[0]), x.drop_first(), y);
    }
}

/// A poisoned scan stays where it is.
pub proof fn lemma_scan_bad(m: ScanState, ts: Seq<TokenView>)
    requires
        m.bad,
    ensures
        scan_from(m, ts) == m,
    decreases ts.len(),
{
    if ts.len() > 0 {
        lemma_scan_bad(m, ts.drop_first());
    }
}

/// Scan a document's token stream, recognizing every `[[...]]` and
/// `![[...]]` construct and collecting the metadata-block text. Yields
/// `None` exactly when a non-text token stands inside the metadata block,
/// the one document shape the scanner does not support.
pub fn scan_tokens(tokens: &Vec<Token>) -> (r: Option<ScanOutcome>)
    ensures
        ({
            let m = scan_from(scan_init(), token_views(tokens@));
            &&& (m.bad ==> r is None)
            &&& (!m.bad ==> (r matches Some(o) && o.events.deep_view() == m.events
                && o.refs.deep_view() == m.refs && o.frontmatter@ == m.frontmatter))
        }),
{
    let ghost tvs = token_views(tokens@);
    let mut parser = RefParser::new();
    let mut buffer: Vec<Token> = Vec::new();
    let mut events: Vec<Token> = Vec::new();
    let mut refs: Vec<RawRef> = Vec::new();
    let mut frontmatter = String::new();
    let mut in_meta = false;
    let mut i: usize = 0;
    proof {
        assert(tvs.take(0) =~= Seq::<TokenView>::empty());
        assert(buffer.deep_view() =~= Seq::<TokenView>::empty());
        assert(events.deep_view() =~= Seq::<TokenView>::empty());
        assert(refs.deep_view() =~= Seq::<RefEmit>::empty());
    }
    while i < tokens.len()
        invariant
            i <= tokens.len(),
            tvs == token_views(tokens@),
            ({
                let m = scan_from(scan_init(), tvs.take(i as int));
                &&& !m.bad
                &&& m.state == parser.state
                &&& m.kind == parser.ref_type
                &&& m.text == parser.ref_text@
                &&& m.buffer == buffer.deep_view()
                &&& m.events == events.deep_view()
                &&& m.refs == refs.deep_view()
                &&& m.frontmatter == frontmatter@
                &&& m.in_meta == in_meta
            }),
            parser.state != RefParserState::NoState && parser.state != RefParserState::Resetting
                ==> parser.ref_type is Some,
        decreases tokens.len() - i,
    {
        let ghost m_pre = scan_from(scan_init(), tvs.take(i as int));
        let ghost t = tvs[i as int];
        proof {
            assert(tvs[i as int] == tokens@[i as int]@);
            assert(tvs.take(i as int + 1) =~= tvs.take(i as int).push(t));
            lemma_scan_from_snoc(scan_init(), tvs.take(i as int), t);
        }
        let ghost m_post = scan_step(m_pre, t);
        if in_meta {
            match &tokens[i] {
                Token::Text(s) => {
                    frontmatter.append(s.as_str());
                },
                Token::MetadataEnd => {
                    in_meta = false;
                },
                _ => {
                    proof {
                        assert(m_post.bad);
                        lemma_scan_bad(m_post, tvs.skip(i as int + 1));
                        assert(tvs =~= tvs.take(i as int + 1) + tvs.skip(i as int + 1));
                        lemma_scan_from_concat(
                            scan_init(),
                            tvs.take(i as int + 1),
                            tvs.skip(i as int + 1),
                        );
                    }
                    return None;
                },
            }
        } else {
            match &tokens[i] {
                Token::MetadataStart => {
                    in_meta = true;
                },
                _ => {
                    if parser.state == RefParserState::Resetting {
                        events.append(&mut buffer);
                        parser.reset();
                    }
                    let ghost m_flushed = if m_pre.state is Resetting {
                        ScanState {
                            state: RefParserState::NoState,
                            kind: None,
                            text: Seq::empty(),
                            events: m_pre.events + m_pre.buffer,
                            buffer: Seq::empty(),
                            ..m_pre
                        }
                    } else {
                        m_pre
                    };
                    proof {
                        assert(m_flushed.events == events.deep_view());
                        assert(m_flushed.buffer == buffer.deep_view());
                    }
                    buffer.push(tokens[i].clone());
                    proof {
                        assert(buffer.deep_view() =~= m_flushed.buffer.push(t));
                    }
                    match parser.state {
                        RefParserState::NoState => {
                            let mut consumed = false;
                            if let Token::Text(s) = &tokens[i] {
                                if is_char2(s.as_str(), '!', '[') {
                                    parser.ref_type = Some(RefType::Embed);
                                    parser.transition(RefParserState::ExpectSecondOpenBracket);
                                    consumed = true;
                                } else if is_char1(s.as_str(), '[') {
                                    parser.ref_type = Some(RefType::Link);
                                    parser.transition(RefParserState::ExpectSecondOpenBracket);
                                    consumed = true;
                                }
                            }
                            if !consumed {
                                events.push(tokens[i].clone());
                                buffer = Vec::new();
                                proof {
                                    assert(events.deep_view() =~= m_post.events);
                                    assert(buffer.deep_view() =~= Seq::<TokenView>::empty());
                                }
                            }
                        },
                        RefParserState::ExpectSecondOpenBracket => {
                            let mut opened = false;
                            if let Token::Text(s) = &tokens[i] {
                                if is_char1(s.as_str(), '[') {
                                    opened = true;
                                }
                            }
                            if opened {
                                parser.transition(RefParserState::ExpectRefText);
                            } else {
                                parser.transition(RefParserState::Resetting);
                            }
                        },
                        RefParserState::ExpectRefText => {
                            match &tokens[i] {
                                Token::Text(s) => {
                                    if is_char1(s.as_str(), ']') {
                                        parser.transition(RefParserState::Resetting);
                                    } else {
                                        parser.ref_text.append(s.as_str());
                                        parser.transition(
                                            RefParserState::ExpectRefTextOrCloseBracket,
                                        );
                                    }
                                },
                                _ => {
                                    parser.transition(RefParserState::Resetting);
                                },
                            }
                        },
                        RefParserState::ExpectRefTextOrCloseBracket => {
                            match &tokens[i] {
                                Token::Text(s) => {
                                    if is_char1(s.as_str(), ']') {
                                        parser.transition(RefParserState::ExpectFinalCloseBracket);
                                    } else {
                                        parser.ref_text.append(s.as_str());
                                    }
                                },
                                _ => {
                                    parser.transition(RefParserState::Resetting);
                                },
                            }
                        },
                        RefParserState::ExpectFinalCloseBracket => {
                            let mut closed = false;
                            if let Token::Text(s) = &tokens[i] {
                                if is_char1(s.as_str(), ']') {
                                    closed = true;
                                }
                            }
                            if closed {
                                let kind = parser.ref_type.unwrap();
                                refs.push(RawRef { text: parser.ref_text.clone(), kind });
                                parser.reset();
                                buffer = Vec::new();
                                proof {
                                    assert(refs.deep_view() =~= m_post.refs);
                                    assert(buffer.deep_view() =~= Seq::<TokenView>::empty());
                                }
                            } else {
                                parser.transition(RefParserState::Resetting);
                            }
                        },
                        RefParserState::Resetting => {
                            proof {
                                assert(false);
                            }
                        },
                    }
                },
            }
        }
        proof {
            let m_now = scan_from(scan_init(), tvs.take(i as int + 1));
            assert(m_now == m_post);
            assert(m_now.buffer == buffer.deep_view());
            assert(m_now.events == events.deep_view());
            assert(m_now.refs == refs.deep_view());
        }
        i += 1;
    }
    proof {
        assert(tvs.take(tokens@.len() as int) =~= tvs);
    }
    Some(ScanOutcome { events, refs, frontmatter })
}

} // verus!

verus! {

/// The parts of the scanner's state that determine which references the
/// rest of the stream yields.
pub open spec fn core_eq(a: ScanState, b: ScanState) -> bool {
    &&& a.state == b.state
    &&& a.kind == b.kind
    &&& a.text == b.text
    &&& a.in_meta == b.in_meta
    &&& a.bad == b.bad
}

/// `a` simulates `b` for reference recognition: either the recognition
/// cores agree, or `a` merely has a flush pending that `b` has already done.
pub open spec fn sim(a: ScanState, b: ScanState) -> bool {
    ||| core_eq(a, b)
    ||| (a.state is Resetting && b.state is NoState && b.kind is None
        && b.text == Seq::<char>::empty() && a.in_meta == b.in_meta && a.bad == b.bad)
}

/// One step preserves the simulation and appends the same references on
/// both sides.
pub proof fn lemma_step_sim(a: ScanState, b: ScanState, t: TokenView)
    requires
        sim(a, b),
    ensures
        sim(scan_step(a, t), scan_step(b, t)),
        scan_step(a, t).refs == a.refs + scan_step(b, t).refs.skip(b.refs.len() as int),
        scan_step(b, t).refs == b.refs + scan_step(b, t).refs.skip(b.refs.len() as int),
{
    let sa = scan_step(a, t);
    let sb = scan_step(b, t);
    if sa.refs.len() == a.refs.len() {
        assert(sa.refs == a.refs);
        assert(sb.refs == b.refs);
        assert(sb.refs.skip(b.refs.len() as int) =~= Seq::<RefEmit>::empty());
        assert(sa.refs =~= a.refs + Seq::<RefEmit>::empty());
        assert(sb.refs =~= b.refs + Seq::<RefEmit>::empty());
    } else {
        let e = RefEmit {
            text: a.text,
            kind: match a.kind {
                Some(k0) => k0,
                None => RefType::Link,
            },
        };
        assert(sa.refs == a.refs.push(e));
        assert(sb.refs == b.refs.push(e));
        assert(sb.refs.skip(b.refs.len() as int) =~= seq![e]);
        assert(sa.refs =~= a.refs + seq![e]);
        assert(sb.refs =~= b.refs + seq![e]);
    }
}

/// The whole remaining stream preserves the simulation and appends the same
/// references on both sides.
pub proof fn lemma_scan_sim(a: ScanState, b: ScanState, ts: Seq<TokenView>)
    requires
        sim(a, b),
    ensures
        sim(scan_from(a, ts), scan_from(b, ts)),
        scan_from(a, ts).refs == a.refs + scan_from(b, ts).refs.skip(b.refs.len() as int),
        scan_from(b, ts).refs == b.refs + scan_from(b, ts).refs.skip(b.refs.len() as int),
    decreases ts.len(),
{
    if ts.len() == 0 {
        assert(scan_from(a, ts) == a);
        assert(scan_from(b, ts) == b);
        assert(b.refs.skip(b.refs.len() as int) =~= Seq::<RefEmit>::empty());
        assert(a.refs =~= a.refs + Seq::<RefEmit>::empty());
        assert(b.refs =~= b.refs + Seq::<RefEmit>::empty());
    } else {
        let t = ts[0];
        let rest = ts.drop_first();
        let a1 = scan_step(a, t);
        let b1 = scan_step(b, t);
        lemma_step_sim(a, b, t);
        lemma_scan_sim(a1, b1, rest);
        let d1 = b1.refs.skip(b.refs.len() as int);
        let d2 = scan_from(b1, rest).refs.skip(b1.refs.len() as int);
        assert(scan_from(a, ts) == scan_from(a1, rest));
        assert(scan_from(b, ts) == scan_from(b1, rest));
        assert(scan_from(a1, rest).refs == a1.refs + d2);
        assert(a1.refs == a.refs + d1);
        assert((a.refs + d1) + d2 =~= a.refs + (d1 + d2));
        assert((b.refs + d1) + d2 =~= b.refs + (d1 + d2));
        assert(scan_from(b, ts).refs.skip(b.refs.len() as int) =~= d1 + d2);
    }
}

/// A bracket sequence that started but never completed corrupts nothing:
/// once the scanner stands in its transient reset state, the references
/// recognized in the rest of the stream are exactly those a fresh scanner
/// would recognize there — and the failed attempt itself contributed none.
pub proof fn lemma_reset_recovers(m: ScanState, ts: Seq<TokenView>)
    requires
        m.state is Resetting,
        !m.in_meta,
        !m.bad,
    ensures
        scan_from(m, ts).refs == m.refs + scan_from(scan_init(), ts).refs,
{
    lemma_scan_sim(m, scan_init(), ts);
    assert(scan_from(scan_init(), ts).refs.skip(0) =~= scan_from(scan_init(), ts).refs);
}

/// A reference text split across adjacent text tokens is recognized exactly
/// as when it arrives in a single token: from a state that accumulates
/// reference text, stepping over `a + b` at once or over `a` then `b`
/// yields the same references for the whole rest of the stream.
pub proof fn lemma_split_text(m: ScanState, a: Seq<char>, b: Seq<char>, ts: Seq<TokenView>)
    requires
        m.state is ExpectRefText || m.state is ExpectRefTextOrCloseBracket,
        !m.in_meta,
        !m.bad,
        a.len() > 0,
        b.len() > 0,
        a != close1(),
        b != close1(),
    ensures
        scan_from(scan_step(m, TokenView::Text(a + b)), ts).refs == scan_from(
            scan_step(scan_step(m, TokenView::Text(a)), TokenView::Text(b)),
            ts,
        ).refs,
{
    let m1 = scan_step(m, TokenView::Text(a + b));
    let m2 = scan_step(scan_step(m, TokenView::Text(a)), TokenView::Text(b));
    assert((a + b).len() >= 2);
    assert(close1().len() == 1);
    assert(m1.text == m.text + (a + b));
    assert(m2.text == (m.text + a) + b);
    assert(m.text + (a + b) =~= (m.text + a) + b);
    assert(core_eq(m1, m2));
    assert(m1.refs == m.refs);
    assert(m2.refs == m.refs);
    lemma_scan_sim(m1, m2, ts);
    let d = scan_from(m2, ts).refs.skip(m2.refs.len() as int);
    assert(scan_from(m1, ts).refs == m.refs + d);
    assert(scan_from(m2, ts).refs == m.refs + d);
}

} // verus!

verus! {

/// An attempt that never completes produces no match: a step appends a
/// reference only when the scanner stands right before the final closing
/// bracket and the token is exactly `]`; every other step leaves the
/// recognized references unchanged.
pub proof fn lemma_no_match_without_close(m: ScanState, t: TokenView)
    ensures
        !(m.state is ExpectFinalCloseBracket && !m.in_meta && !m.bad && t == TokenView::Text(
            close1(),
        )) ==> scan_step(m, t).refs == m.refs,
{
}

} // verus!
