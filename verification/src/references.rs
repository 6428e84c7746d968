use vstd::prelude::*;

verus! {

/// `ObsidianNoteReference` represents the structure of a `[[note]]` or
/// `![[embed]]` reference: an optional file part, an optional section part,
/// and an optional display label.
pub struct ObsidianNoteReference {
    /// The file (note name or partial path) being referenced.
    /// `None` when the reference points at a section of the same document.
    pub file: Option<String>,
    /// The section/heading being referenced, if any.
    pub section: Option<String>,
    /// The custom label which was specified, if any.
    pub label: Option<String>,
}

/// `RefParserState` enumerates all the possible parsing states [`RefParser`]
/// may enter while recognizing a `[[...]]` / `![[...]]` construct.
#[derive(PartialEq, Eq, Structural, Clone, Copy)]
pub enum RefParserState {
    NoState,
    ExpectSecondOpenBracket,
    ExpectRefText,
    ExpectRefTextOrCloseBracket,
    ExpectFinalCloseBracket,
    Resetting,
}

/// `RefType` indicates whether a note reference is a link (`[[note]]`) or an
/// embed (`![[embed]]`).
#[derive(PartialEq, Eq, Structural, Clone, Copy)]
pub enum RefType {
    Link,
    Embed,
}

/// `RefParser` holds the state used to recognize `[[note]]` and `![[embed]]`
/// references inside a stream of tokens.
pub struct RefParser {
    pub state: RefParserState,
    pub ref_type: Option<RefType>,
    // References sometimes arrive split over multiple text tokens, e.g. when a
    // note name contains an emphasis marker character. `ref_text` concatenates
    // the pieces so a fully-formed string is available when `]]` is reached.
    pub ref_text: String,
}

impl RefParser {
    /// A parser in its initial state: no state, no kind, empty text buffer.
    pub fn new() -> (r: Self)
        ensures
            r.state == RefParserState::NoState,
            r.ref_type is None,
            r.ref_text@ == Seq::<char>::empty(),
    {
        Self {
            state: RefParserState::NoState,
            ref_type: None,
            ref_text: String::new(),
        }
    }

    /// Move to `new_state`, leaving the kind and accumulated text unchanged.
    pub fn transition(&mut self, new_state: RefParserState)
        ensures
            final(self).state == new_state,
            final(self).ref_type == old(self).ref_type,
            final(self).ref_text@ == old(self).ref_text@,
    {
        self.state = new_state;
    }

    /// Return to the initial state, clearing the kind and accumulated text.
    pub fn reset(&mut self)
        ensures
            final(self).state == RefParserState::NoState,
            final(self).ref_type is None,
            final(self).ref_text@ == Seq::<char>::empty(),
    {
        self.state = RefParserState::NoState;
        self.ref_type = None;
        self.ref_text = String::new();
    }
}

} // verus!

verus! {

use crate::strings::trim_spec;
use crate::strings::trim_str;
use vstd::string::*;

/// Spec-level shape of a structured reference.
pub ghost struct RefView {
    pub file: Option<Seq<char>>,
    pub section: Option<Seq<char>>,
    pub label: Option<Seq<char>>,
}

impl View for ObsidianNoteReference {
    type V = RefView;

    open spec fn view(&self) -> RefView {
        RefView {
            file: self.file.deep_view(),
            section: self.section.deep_view(),
            label: self.label.deep_view(),
        }
    }
}

/// A character that is structurally significant in a reference text.
pub open spec fn is_special(c: char) -> bool {
    c == '#' || c == '|'
}

/// The first position at or after `i` holding `#` or `|`, or the length of
/// `s` when there is none.
pub open spec fn find_special(s: Seq<char>, i: int) -> int
    decreases s.len() - i,
{
    if i < 0 || i >= s.len() {
        s.len() as int
    } else if is_special(s[i]) {
        i
    } else {
        find_special(s, i + 1)
    }
}

/// The first position at or after `i` holding `|`, or the length of `s`.
pub open spec fn find_pipe(s: Seq<char>, i: int) -> int
    decreases s.len() - i,
{
    if i < 0 || i >= s.len() {
        s.len() as int
    } else if s[i] == '|' {
        i
    } else {
        find_pipe(s, i + 1)
    }
}

/// An absent part is `None`; a present one is kept with surrounding
/// whitespace removed.
pub open spec fn opt_trimmed(s: Seq<char>) -> Option<Seq<char>> {
    if s.len() == 0 {
        None
    } else {
        Some(trim_spec(s))
    }
}

/// An absent part is `None`; a present one is kept verbatim.
pub open spec fn opt_verbatim(s: Seq<char>) -> Option<Seq<char>> {
    if s.len() == 0 {
        None
    } else {
        Some(s)
    }
}

/// The three-way split of a raw reference text: the file part runs up to the
/// first `#` or `|`; a section part follows a `#` up to the next `|`; a label
/// part follows the first `|` and is taken verbatim.
pub open spec fn parse_ref(s: Seq<char>) -> RefView {
    let p = find_special(s, 0);
    let file = opt_trimmed(s.subrange(0, p));
    if p >= s.len() {
        RefView { file, section: None, label: None }
    } else if s[p] == '|' {
        RefView { file, section: None, label: opt_verbatim(s.subrange(p + 1, s.len() as int)) }
    } else {
        let q = find_pipe(s, p + 1);
        let section = opt_trimmed(s.subrange(p + 1, q));
        let label = if q >= s.len() {
            None
        } else {
            opt_verbatim(s.subrange(q + 1, s.len() as int))
        };
        RefView { file, section, label }
    }
}

fn opt_trim_part(s: &str, from: usize, to: usize) -> (r: Option<String>)
    requires
        from <= to <= s@.len(),
    ensures
        r.deep_view() == opt_trimmed(s@.subrange(from as int, to as int)),
{
    if from == to {
        None
    } else {
        Some(trim_str(s.substring_char(from, to)))
    }
}

fn opt_raw_part(s: &str, from: usize, to: usize) -> (r: Option<String>)
    requires
        from <= to <= s@.len(),
    ensures
        r.deep_view() == opt_verbatim(s@.subrange(from as int, to as int)),
{
    if from == to {
        None
    } else {
        Some(s.substring_char(from, to).to_owned())
    }
}

impl ObsidianNoteReference {
    /// Split a raw reference text into its file, section and label parts.
    pub fn from_str(text: &str) -> (r: ObsidianNoteReference)
        ensures
            r@ == parse_ref(text@),
    {
        let n = text.unicode_len();
        let mut p: usize = 0;
        while p < n && !(text.get_char(p) == '#' || text.get_char(p) == '|')
            invariant
                n == text@.len(),
                p <= n,
                find_special(text@, 0) == find_special(text@, p as int),
            decreases n - p,
        {
            proof {
                assert(find_special(text@, p as int) == find_special(text@, p as int + 1));
            }
            p += 1;
        }
        proof {
            assert(find_special(text@, p as int) == p);
        }
        let file = opt_trim_part(text, 0, p);
        if p == n {
            ObsidianNoteReference { file, section: None, label: None }
        } else if text.get_char(p) == '|' {
            let label = opt_raw_part(text, p + 1, n);
            ObsidianNoteReference { file, section: None, label }
        } else {
            let mut q: usize = p + 1;
            while q < n && text.get_char(q) != '|'
                invariant
                    p + 1 <= q <= n,
                    n == text@.len(),
                    find_pipe(text@, p as int + 1) == find_pipe(text@, q as int),
                decreases n - q,
            {
                proof {
                    assert(find_pipe(text@, q as int) == find_pipe(text@, q as int + 1));
                }
                q += 1;
            }
            proof {
                assert(find_pipe(text@, q as int) == q);
            }
            let section = opt_trim_part(text, p + 1, q);
            let label = if q == n {
                None
            } else {
                opt_raw_part(text, q + 1, n)
            };
            ObsidianNoteReference { file, section, label }
        }
    }
}

/// `find_special(s, i)` is `k` exactly when nothing special stands in
/// `[i, k)` and `k` is special or the end.
pub proof fn lemma_find_special_at(s: Seq<char>, i: int, k: int)
    requires
        0 <= i <= k <= s.len(),
        forall|j: int| i <= j < k ==> !is_special(s[j]),
        k < s.len() ==> is_special(s[k]),
    ensures
        find_special(s, i) == k,
    decreases k - i,
{
    if i < k {
        lemma_find_special_at(s, i + 1, k);
    }
}

/// The analogue of `lemma_find_special_at` for `find_pipe`.
pub proof fn lemma_find_pipe_at(s: Seq<char>, i: int, k: int)
    requires
        0 <= i <= k <= s.len(),
        forall|j: int| i <= j < k ==> s[j] != '|',
        k < s.len() ==> s[k] == '|',
    ensures
        find_pipe(s, i) == k,
    decreases k - i,
{
    if i < k {
        lemma_find_pipe_at(s, i + 1, k);
    }
}

/// For every well-formed `file#section|label` text, the parser recovers the
/// file, section and label exactly as the substrings delimited by the first
/// `#` and the following `|`, the file and section trimmed of surrounding
/// whitespace and the label verbatim.
pub proof fn lemma_parse_full(f: Seq<char>, sec: Seq<char>, lab: Seq<char>)
    requires
        f.len() > 0,
        sec.len() > 0,
        lab.len() > 0,
        forall|j: int| 0 <= j < f.len() ==> !is_special(f[j]),
        forall|j: int| 0 <= j < sec.len() ==> sec[j] != '|',
    ensures
        parse_ref(f + seq!['#'] + sec + seq!['|'] + lab) == (RefView {
            file: Some(trim_spec(f)),
            section: Some(trim_spec(sec)),
            label: Some(lab),
        }),
{
    let s = f + seq!['#'] + sec + seq!['|'] + lab;
    let p = f.len() as int;
    let q = p + 1 + sec.len() as int;
    assert(s[p] == '#');
    assert(s[q] == '|');
    assert(forall|j: int| 0 <= j < p ==> s[j] == f[j] && !is_special(s[j]));
    lemma_find_special_at(s, 0, p);
    assert(forall|j: int| p + 1 <= j < q ==> s[j] == sec[j - p - 1] && s[j] != '|');
    lemma_find_pipe_at(s, p + 1, q);
    assert(s.subrange(0, p) =~= f);
    assert(s.subrange(p + 1, q) =~= sec);
    assert(s.subrange(q + 1, s.len() as int) =~= lab);
}

/// For a reference text holding neither `#` nor `|`, the section and label
/// are absent — `None`, not empty strings — and the file is the whole text
/// trimmed of surrounding whitespace.
pub proof fn lemma_parse_plain(s: Seq<char>)
    requires
        s.len() > 0,
        forall|j: int| 0 <= j < s.len() ==> !is_special(s[j]),
    ensures
        parse_ref(s) == (RefView { file: Some(trim_spec(s)), section: None, label: None }),
{
    lemma_find_special_at(s, 0, s.len() as int);
    assert(s.subrange(0, s.len() as int) =~= s);
}

} // verus!
