use vstd::prelude::*;

verus! {

use crate::frontmatter::{decode_tags, spec_decode_tags};
use crate::references::{parse_ref, ObsidianNoteReference};
use crate::resolver::{
    find_match, is_markdown_file, is_markdown_path, lookup_filename_in_vault,
};
use crate::scanner::{scan_from, scan_init, scan_tokens, RefEmit, ScanState};
use crate::strings::contains_string;
use crate::tokens::{token_views, tokenize, tokens_of};
use vstd::string::*;

/// Everything that can go wrong during a run. A reference that merely fails
/// to resolve is not an error; every variant here aborts the run.
pub enum CopyError {
    /// An IO read of a document failed.
    ReadError { path: String },
    /// Copying a file to its destination failed.
    CopyError { from: String, to: String },
    /// An explicitly requested path does not exist.
    PathDoesNotExist { path: String },
    /// Walking the vault directory tree failed.
    WalkDirError { path: String },
    /// The metadata block of a document is not well-formed.
    FrontmatterDecodeError { path: String },
    /// A non-text token stood inside a metadata block, a document shape the
    /// scanner does not support.
    MetadataContentError { path: String },
}

/// One document of the vault: its path and its raw text.
pub struct Document {
    pub path: String,
    pub content: String,
}

/// Spec-level shape of a document.
pub ghost struct DocView {
    pub path: Seq<char>,
    pub content: Seq<char>,
}

impl View for Document {
    type V = DocView;

    open spec fn view(&self) -> DocView {
        DocView { path: self.path@, content: self.content@ }
    }
}

impl DeepView for Document {
    type V = DocView;

    open spec fn deep_view(&self) -> DocView {
        self@
    }
}

/// No string occurs twice.
pub open spec fn unique_strs(s: Seq<Seq<char>>) -> bool {
    forall|i: int, j: int| 0 <= i < j < s.len() ==> s[i] != s[j]
}

proof fn lemma_push_to_set(s: Seq<Seq<char>>, x: Seq<char>)
    ensures
        s.push(x).to_set() == s.to_set().insert(x),
{
    assert forall|a: Seq<char>| s.push(x).to_set().contains(a) implies s.to_set().insert(
        x,
    ).contains(a) by {
        let i = choose|i: int| 0 <= i < s.push(x).len() && s.push(x)[i] == a;
        if i < s.len() {
            assert(s[i] == a);
        }
    }
    assert forall|a: Seq<char>| s.to_set().insert(x).contains(a) implies s.push(x).to_set().contains(
        a,
    ) by {
        if a == x {
            assert(s.push(x)[s.len() as int] == a);
        } else {
            let i = choose|i: int| 0 <= i < s.len() && s[i] == a;
            assert(s.push(x)[i] == a);
        }
    }
    assert(s.push(x).to_set() =~= s.to_set().insert(x));
}

/// Append `s` unless it is already there, so the selection stays a set.
fn insert_unique(v: &mut Vec<String>, s: String)
    ensures
        final(v).deep_view().to_set() == old(v).deep_view().to_set().insert(s@),
        unique_strs(old(v).deep_view()) ==> unique_strs(final(v).deep_view()),
{
    let present = contains_string(v, &s);
    let ghost olds = v.deep_view();
    if !present {
        v.push(s);
        proof {
            assert(v.deep_view() =~= olds.push(s@));
            lemma_push_to_set(olds, s@);
            if unique_strs(olds) {
                assert forall|i: int, j: int|
                    0 <= i < j < v.deep_view().len() implies v.deep_view()[i]
                    != v.deep_view()[j] by {
                    if j == olds.len() {
                        assert(v.deep_view()[i] == olds[i]);
                        if olds[i] == s@ {
                            assert(olds.contains(s@));
                        }
                    }
                }
            }
        }
    } else {
        proof {
            assert(olds.to_set().insert(s@) =~= olds.to_set());
        }
    }
}

fn any_common(xs: &Vec<String>, members: &Vec<String>) -> (r: bool)
    ensures
        r == (exists|j: int|
            0 <= j < xs.deep_view().len() && members.deep_view().contains(xs.deep_view()[j])),
{
    let mut i: usize = 0;
    while i < xs.len()
        invariant
            i <= xs@.len(),
            forall|j: int| 0 <= j < i ==> !members.deep_view().contains(xs.deep_view()[j]),
        decreases xs@.len() - i,
    {
        if contains_string(members, &xs[i]) {
            proof {
                assert(xs.deep_view()[i as int] == xs@[i as int]@);
            }
            return true;
        }
        i += 1;
    }
    false
}

/// Is a document with this tag list selected, given the include and exclude
/// tag sets?
pub open spec fn tags_included(
    tags: Seq<Seq<char>>,
    inc_set: Seq<Seq<char>>,
    exc_set: Seq<Seq<char>>,
) -> bool {
    &&& exists|i: int| 0 <= i < tags.len() && inc_set.contains(tags[i])
    &&& !exists|i: int| 0 <= i < tags.len() && exc_set.contains(tags[i])
}

/// A document is selected exactly when its tag list intersects the
/// inclusion set and does not intersect the exclusion set; with an empty
/// inclusion set no document is ever selected.
pub fn note_included(tags: &Vec<String>, inc_tags: &Vec<String>, exc_tags: &Vec<String>) -> (r:
    bool)
    ensures
        r == tags_included(tags.deep_view(), inc_tags.deep_view(), exc_tags.deep_view()),
{
    let found_inc = any_common(tags, inc_tags);
    let found_exc = any_common(tags, exc_tags);
    found_inc && !found_exc
}

/// The scanner's final state on a document's token stream.
pub open spec fn doc_scan(content: Seq<char>) -> ScanState {
    scan_from(scan_init(), tokens_of(content))
}

/// The tag list a document's metadata decodes to, if it decodes.
pub open spec fn doc_tags(content: Seq<char>) -> Option<Seq<Seq<char>>> {
    spec_decode_tags(doc_scan(content).frontmatter)
}

/// The vault path a recognized reference resolves to, if any.
pub open spec fn ref_attachment(e: RefEmit, vault: Seq<Seq<char>>) -> Option<Seq<char>> {
    match parse_ref(e.text).file {
        Some(f) => match find_match(vault, f, 0) {
            Some(i) => Some(vault[i]),
            None => None,
        },
        None => None,
    }
}

/// The set of vault paths the recognized references resolve to.
pub open spec fn refs_attachments(refs: Seq<RefEmit>, vault: Seq<Seq<char>>) -> Set<Seq<char>>
    decreases refs.len(),
{
    if refs.len() == 0 {
        Set::empty()
    } else {
        let rest = refs_attachments(refs.drop_first(), vault);
        match ref_attachment(refs[0], vault) {
            Some(p) => rest.insert(p),
            None => rest,
        }
    }
}

proof fn lemma_refs_attachments_snoc(refs: Seq<RefEmit>, e: RefEmit, vault: Seq<Seq<char>>)
    ensures
        refs_attachments(refs.push(e), vault) == (match ref_attachment(e, vault) {
            Some(p) => refs_attachments(refs, vault).insert(p),
            None => refs_attachments(refs, vault),
        }),
    decreases refs.len(),
{
    reveal_with_fuel(refs_attachments, 3);
    if refs.len() == 0 {
        assert(refs.push(e)[0] == e);
        assert(refs.push(e).drop_first() =~= Seq::<RefEmit>::empty());
    } else {
        assert(refs.push(e)[0] == refs[0]);
        assert(refs.push(e).drop_first() =~= refs.drop_first().push(e));
        lemma_refs_attachments_snoc(refs.drop_first(), e, vault);
        let rest = refs_attachments(refs.drop_first(), vault);
        match ref_attachment(refs[0], vault) {
            Some(p) => {
                match ref_attachment(e, vault) {
                    Some(q) => {
                        assert(rest.insert(q).insert(p) =~= rest.insert(p).insert(q));
                    },
                    None => {},
                }
            },
            None => {},
        }
    }
}

/// Does the document take part in the run without error? Non-document files
/// are never scanned; a document fails when its metadata block holds a
/// non-text token or does not decode.
pub open spec fn doc_passes(d: DocView) -> bool {
    !is_markdown_path(d.path) || (!doc_scan(d.content).bad && doc_tags(d.content) is Some)
}

/// The first document, in order, that does not pass.
pub open spec fn first_failure(docs: Seq<DocView>, i: int) -> Option<int>
    decreases docs.len() - i,
{
    if i < 0 || i >= docs.len() {
        None
    } else if !doc_passes(docs[i]) {
        Some(i)
    } else {
        first_failure(docs, i + 1)
    }
}

/// What one document contributes to the selection: nothing unless it is a
/// document, scans cleanly, decodes, and its tags select it; otherwise its
/// own path together with every attachment its references resolve to.
pub open spec fn doc_selection(
    d: DocView,
    vault: Seq<Seq<char>>,
    inc_set: Seq<Seq<char>>,
    exc_set: Seq<Seq<char>>,
) -> Set<Seq<char>> {
    if is_markdown_path(d.path) && !doc_scan(d.content).bad {
        match doc_tags(d.content) {
            Some(tags) => if tags_included(tags, inc_set, exc_set) {
                refs_attachments(doc_scan(d.content).refs, vault).insert(d.path)
            } else {
                Set::empty()
            },
            None => Set::empty(),
        }
    } else {
        Set::empty()
    }
}

/// What the first `k` documents together contribute to the selection.
pub open spec fn docs_selection(
    docs: Seq<DocView>,
    k: int,
    vault: Seq<Seq<char>>,
    inc_set: Seq<Seq<char>>,
    exc_set: Seq<Seq<char>>,
) -> Set<Seq<char>>
    decreases k,
{
    if k <= 0 {
        Set::empty()
    } else {
        docs_selection(docs, k - 1, vault, inc_set, exc_set).union(
            doc_selection(docs[k - 1], vault, inc_set, exc_set),
        )
    }
}

/// `Copier` is the run's orchestrator: it holds the configured tag filters,
/// the vault index, and the growing selection of files to copy.
pub struct Copier {
    pub root: String,
    pub destination: String,
    pub include_tags: Vec<String>,
    pub exclude_tags: Vec<String>,
    pub to_copy: Vec<String>,
    pub vault_contents: Vec<String>,
}

impl Copier {
    /// The selection holds no path twice.
    pub open spec fn wf(self) -> bool {
        unique_strs(self.to_copy.deep_view())
    }

    /// A copier that reads notes under `root` and plans copies under
    /// `destination`, with empty filters and an empty selection.
    pub fn new(root: String, destination: String) -> (r: Self)
        ensures
            r.root@ == root@,
            r.destination@ == destination@,
            r.include_tags@.len() == 0,
            r.exclude_tags@.len() == 0,
            r.to_copy@.len() == 0,
            r.vault_contents@.len() == 0,
            r.wf(),
    {
        Self {
            root,
            destination,
            include_tags: Vec::new(),
            exclude_tags: Vec::new(),
            to_copy: Vec::new(),
            vault_contents: Vec::new(),
        }
    }

    /// Add tags to be included.
    pub fn include_tags(&mut self, tags: Vec<String>)
        ensures
            final(self).include_tags.deep_view() == old(self).include_tags.deep_view()
                + tags.deep_view(),
            final(self).root == old(self).root,
            final(self).destination == old(self).destination,
            final(self).exclude_tags == old(self).exclude_tags,
            final(self).to_copy == old(self).to_copy,
            final(self).vault_contents == old(self).vault_contents,
    {
        let ghost t = tags.deep_view();
        let mut tags = tags;
        self.include_tags.append(&mut tags);
        proof {
            assert(self.include_tags.deep_view() =~= old(self).include_tags.deep_view() + t);
        }
    }

    /// Add tags to be excluded.
    pub fn exclude_tags(&mut self, tags: Vec<String>)
        ensures
            final(self).exclude_tags.deep_view() == old(self).exclude_tags.deep_view()
                + tags.deep_view(),
            final(self).root == old(self).root,
            final(self).destination == old(self).destination,
            final(self).include_tags == old(self).include_tags,
            final(self).to_copy == old(self).to_copy,
            final(self).vault_contents == old(self).vault_contents,
    {
        let ghost t = tags.deep_view();
        let mut tags = tags;
        self.exclude_tags.append(&mut tags);
        proof {
            assert(self.exclude_tags.deep_view() =~= old(self).exclude_tags.deep_view() + t);
        }
    }

    /// The vault path a structured reference's file part resolves to:
    /// `None` when the reference has no file part — a same-document section
    /// link — or when no vault path matches it.
    pub fn reference_to_path(&self, reference: &ObsidianNoteReference) -> (r: Option<String>)
        ensures
            ({
                match reference@.file {
                    Some(f) => match find_match(self.vault_contents.deep_view(), f, 0) {
                        Some(i) => r matches Some(p) && p@ == self.vault_contents.deep_view()[i],
                        None => r is None,
                    },
                    None => r is None,
                }
            }),
    {
        match &reference.file {
            Some(f) => lookup_filename_in_vault(f.as_str(), &self.vault_contents),
            None => None,
        }
    }

    /// Scan one document and, when its tags select it, add it and every
    /// attachment its references resolve to into the selection.
    fn scan_and_add(&mut self, path: &String, content: &String) -> (r: Result<(), CopyError>)
        requires
            is_markdown_path(path@),
        ensures
            final(self).root == old(self).root,
            final(self).destination == old(self).destination,
            final(self).include_tags == old(self).include_tags,
            final(self).exclude_tags == old(self).exclude_tags,
            final(self).vault_contents == old(self).vault_contents,
            old(self).wf() ==> final(self).wf(),
            ({
                let d = DocView { path: path@, content: content@ };
                let vault = old(self).vault_contents.deep_view();
                let inc = old(self).include_tags.deep_view();
                let exc = old(self).exclude_tags.deep_view();
                &&& (r is Ok <==> doc_passes(d))
                &&& (r is Ok ==> final(self).to_copy.deep_view().to_set() == old(
                    self,
                ).to_copy.deep_view().to_set().union(doc_selection(d, vault, inc, exc)))
                &&& (doc_scan(content@).bad ==> (r matches Err(e) && e matches
                    CopyError::MetadataContentError { path: p } && p@ == path@))
                &&& (!doc_scan(content@).bad && doc_tags(content@) is None ==> (r matches Err(e)
                    && e matches CopyError::FrontmatterDecodeError { path: p } && p@ == path@))
                &&& (r is Err ==> final(self).to_copy == old(self).to_copy)
            }),
    {
        let ghost vault = self.vault_contents.deep_view();
        let tokens = tokenize(content.as_str());
        let outcome = match scan_tokens(&tokens) {
            None => {
                return Err(CopyError::MetadataContentError { path: path.clone() });
            },
            Some(o) => o,
        };
        proof {
            assert(token_views(tokens@) == tokens_of(content@));
        }
        let tags = match decode_tags(outcome.frontmatter.as_str()) {
            None => {
                return Err(CopyError::FrontmatterDecodeError { path: path.clone() });
            },
            Some(t) => t,
        };
        proof {
            assert(doc_tags(content@) == Some(tags.deep_view()));
        }
        let ghost refs = doc_scan(content@).refs;
        let mut found: Vec<String> = Vec::new();
        let mut j: usize = 0;
        proof {
            assert(refs.take(0) =~= Seq::<RefEmit>::empty());
            assert(found.deep_view().to_set() =~= Set::<Seq<char>>::empty());
        }
        while j < outcome.refs.len()
            invariant
                j <= outcome.refs@.len(),
                outcome.refs.deep_view() == refs,
                self.vault_contents.deep_view() == vault,
                found.deep_view().to_set() == refs_attachments(refs.take(j as int), vault),
            decreases outcome.refs@.len() - j,
        {
            let ghost e = refs[j as int];
            proof {
                assert(refs.take(j as int + 1) =~= refs.take(j as int).push(e));
                lemma_refs_attachments_snoc(refs.take(j as int), e, vault);
                assert(outcome.refs.deep_view()[j as int] == outcome.refs@[j as int]@);
            }
            let reference = ObsidianNoteReference::from_str(outcome.refs[j].text.as_str());
            let ghost olds = found.deep_view();
            match &reference.file {
                Some(f) => {
                    match lookup_filename_in_vault(f.as_str(), &self.vault_contents) {
                        Some(p) => {
                            found.push(p);
                            proof {
                                assert(found.deep_view() =~= olds.push(
                                    ref_attachment(e, vault).unwrap(),
                                ));
                                lemma_push_to_set(olds, ref_attachment(e, vault).unwrap());
                            }
                        },
                        None => {},
                    }
                },
                None => {},
            }
            j += 1;
        }
        proof {
            assert(refs.take(outcome.refs@.len() as int) =~= refs);
        }
        let selected = note_included(&tags, &self.include_tags, &self.exclude_tags);
        if selected {
            let ghost before = self.to_copy.deep_view();
            insert_unique(&mut self.to_copy, path.clone());
            let mut k: usize = 0;
            proof {
                assert(found.deep_view().take(0) =~= Seq::<Seq<char>>::empty());
            }
            while k < found.len()
                invariant
                    k <= found@.len(),
                    self.root == old(self).root,
                    self.destination == old(self).destination,
                    self.include_tags == old(self).include_tags,
                    self.exclude_tags == old(self).exclude_tags,
                    self.vault_contents == old(self).vault_contents,
                    unique_strs(before) ==> unique_strs(self.to_copy.deep_view()),
                    self.to_copy.deep_view().to_set() == before.to_set().insert(path@).union(
                        found.deep_view().take(k as int).to_set(),
                    ),
                decreases found@.len() - k,
            {
                proof {
                    assert(found.deep_view().take(k as int + 1) =~= found.deep_view().take(
                        k as int,
                    ).push(found.deep_view()[k as int]));
                    lemma_push_to_set(
                        found.deep_view().take(k as int),
                        found.deep_view()[k as int],
                    );
                    assert(found.deep_view()[k as int] == found@[k as int]@);
                }
                insert_unique(&mut self.to_copy, found[k].clone());
                proof {
                    assert(self.to_copy.deep_view().to_set() =~= before.to_set().insert(
                        path@,
                    ).union(found.deep_view().take(k as int + 1).to_set()));
                }
                k += 1;
            }
            proof {
                assert(found.deep_view().take(found@.len() as int) =~= found.deep_view());
                let d = DocView { path: path@, content: content@ };
                let inc = old(self).include_tags.deep_view();
                let exc = old(self).exclude_tags.deep_view();
                assert(doc_selection(d, vault, inc, exc) =~= refs_attachments(refs, vault).insert(
                    path@,
                ));
                assert(self.to_copy.deep_view().to_set() =~= before.to_set().union(
                    doc_selection(d, vault, inc, exc),
                ));
            }
        } else {
            proof {
                let d = DocView { path: path@, content: content@ };
                let inc = old(self).include_tags.deep_view();
                let exc = old(self).exclude_tags.deep_view();
                assert(doc_selection(d, vault, inc, exc) =~= Set::<Seq<char>>::empty());
                assert(self.to_copy.deep_view().to_set() =~= self.to_copy.deep_view().to_set().union(
                    doc_selection(d, vault, inc, exc),
                ));
            }
        }
        Ok(())
    }

    /// Index the vault: remember its contents, scan every document handed
    /// in, and grow the selection with each selected document and its
    /// attachments. Processing stops at the first failing document, whose
    /// error is returned.
    pub fn index(&mut self, vault_contents: Vec<String>, documents: Vec<Document>) -> (r: Result<
        (),
        CopyError,
    >)
        ensures
            final(self).root == old(self).root,
            final(self).destination == old(self).destination,
            final(self).include_tags == old(self).include_tags,
            final(self).exclude_tags == old(self).exclude_tags,
            final(self).vault_contents == vault_contents,
            old(self).wf() ==> final(self).wf(),
            ({
                let docs = documents.deep_view();
                let vault = vault_contents.deep_view();
                let inc = old(self).include_tags.deep_view();
                let exc = old(self).exclude_tags.deep_view();
                match first_failure(docs, 0) {
                    None => r is Ok && final(self).to_copy.deep_view().to_set() == old(
                        self,
                    ).to_copy.deep_view().to_set().union(
                        docs_selection(docs, docs.len() as int, vault, inc, exc),
                    ),
                    Some(k) => {
                        &&& r is Err
                        &&& (doc_scan(docs[k].content).bad ==> (r matches Err(e) && e matches
                            CopyError::MetadataContentError { path: p } && p@ == docs[k].path))
                        &&& (!doc_scan(docs[k].content).bad ==> (r matches Err(e) && e matches
                            CopyError::FrontmatterDecodeError { path: p } && p@ == docs[k].path))
                        &&& final(self).to_copy.deep_view().to_set() == old(
                            self,
                        ).to_copy.deep_view().to_set().union(
                            docs_selection(docs, k, vault, inc, exc),
                        )
                    },
                }
            }),
    {
        let ghost docs = documents.deep_view();
        let ghost vault = vault_contents.deep_view();
        let ghost vcs = vault_contents;
        let ghost inc = self.include_tags.deep_view();
        let ghost exc = self.exclude_tags.deep_view();
        self.vault_contents = vault_contents;
        let mut i: usize = 0;
        while i < documents.len()
            invariant
                i <= documents@.len(),
                vcs == vault_contents,
                docs == documents.deep_view(),
                self.root == old(self).root,
                self.destination == old(self).destination,
                self.include_tags == old(self).include_tags,
                self.exclude_tags == old(self).exclude_tags,
                self.vault_contents == vcs,
                self.vault_contents.deep_view() == vault,
                inc == old(self).include_tags.deep_view(),
                exc == old(self).exclude_tags.deep_view(),
                old(self).wf() ==> unique_strs(self.to_copy.deep_view()),
                first_failure(docs, 0) == first_failure(docs, i as int),
                self.to_copy.deep_view().to_set() == old(self).to_copy.deep_view().to_set().union(
                    docs_selection(docs, i as int, vault, inc, exc),
                ),
            decreases documents@.len() - i,
        {
            let d = &documents[i];
            proof {
                assert(docs[i as int] == documents@[i as int]@);
            }
            if is_markdown_file(&d.path) {
                let ghost before = self.to_copy.deep_view();
                match self.scan_and_add(&d.path, &d.content) {
                    Ok(()) => {
                        proof {
                            assert(doc_passes(docs[i as int]));
                            assert(first_failure(docs, i as int) == first_failure(
                                docs,
                                i as int + 1,
                            ));
                            assert(self.to_copy.deep_view().to_set() =~= old(
                                self,
                            ).to_copy.deep_view().to_set().union(
                                docs_selection(docs, i as int + 1, vault, inc, exc),
                            ));
                        }
                    },
                    Err(e) => {
                        proof {
                            assert(!doc_passes(docs[i as int]));
                            assert(first_failure(docs, 0) == Some(i as int));
                        }
                        return Err(e);
                    },
                }
            } else {
                proof {
                    assert(doc_passes(docs[i as int]));
                    assert(first_failure(docs, i as int) == first_failure(docs, i as int + 1));
                    assert(doc_selection(docs[i as int], vault, inc, exc)
                        =~= Set::<Seq<char>>::empty());
                    assert(self.to_copy.deep_view().to_set() =~= old(
                        self,
                    ).to_copy.deep_view().to_set().union(
                        docs_selection(docs, i as int + 1, vault, inc, exc),
                    ));
                }
            }
            i += 1;
        }
        proof {
            assert(first_failure(docs, documents@.len() as int) is None);
        }
        Ok(())
    }
}

} // verus!

verus! {

use crate::strings::str_starts_with;

/// The destination path for a vault-relative path: the destination root and
/// the relative path, with exactly one `/` between them.
pub open spec fn join_path(d: Seq<char>, r: Seq<char>) -> Seq<char> {
    if d.len() == 0 {
        r
    } else if d[d.len() - 1] == '/' {
        d + r
    } else {
        d + seq!['/'] + r
    }
}

/// Where a selected file goes: its path with the root prefix replaced by the
/// destination, or `None` when the file does not lie under the root.
pub open spec fn rebased_path(root: Seq<char>, dest: Seq<char>, file: Seq<char>) -> Option<
    Seq<char>,
> {
    if root.len() == 0 {
        Some(join_path(dest, file))
    } else if file.len() > root.len() && file.take(root.len() as int) == root {
        if root[root.len() - 1] == '/' {
            Some(join_path(dest, file.skip(root.len() as int)))
        } else if file[root.len() as int] == '/' {
            Some(join_path(dest, file.skip(root.len() as int + 1)))
        } else {
            None
        }
    } else {
        None
    }
}

impl Copier {
    fn join_dest(&self, rel: &str) -> (r: String)
        ensures
            r@ == join_path(self.destination@, rel@),
    {
        let dn = self.destination.as_str().unicode_len();
        if dn == 0 {
            rel.to_owned()
        } else if self.destination.as_str().get_char(dn - 1) == '/' {
            self.destination.clone().concat(rel)
        } else {
            let mut out = self.destination.clone();
            out.append("/");
            out.append(rel);
            proof {
                reveal_strlit("/");
                assert("/"@ =~= seq!['/']);
                assert(out@ =~= self.destination@ + seq!['/'] + rel@);
            }
            out
        }
    }

    fn rebase_one(&self, file: &String) -> (r: Option<String>)
        ensures
            ({
                match rebased_path(self.root@, self.destination@, file@) {
                    Some(p) => r matches Some(d) && d@ == p,
                    None => r is None,
                }
            }),
    {
        let rn = self.root.as_str().unicode_len();
        let fln = file.as_str().unicode_len();
        if rn == 0 {
            Some(self.join_dest(file.as_str()))
        } else if fln > rn && str_starts_with(file.as_str(), self.root.as_str()) {
            if self.root.as_str().get_char(rn - 1) == '/' {
                Some(self.join_dest(file.as_str().substring_char(rn, fln)))
            } else if file.as_str().get_char(rn) == '/' {
                Some(self.join_dest(file.as_str().substring_char(rn + 1, fln)))
            } else {
                None
            }
        } else {
            None
        }
    }

    /// The copy step's plan: for every selected file, its source path and
    /// the destination path it goes to — the file's path with the vault root
    /// replaced by the destination root. `None` when some selected file does
    /// not lie under the root.
    pub fn copy_plan(&self) -> (r: Option<Vec<(String, String)>>)
        ensures
            ({
                let files = self.to_copy.deep_view();
                match r {
                    Some(plan) => plan@.len() == files.len() && forall|k: int|
                        #![trigger plan@[k]]
                        0 <= k < files.len() ==> plan@[k].0@ == files[k] && Some(plan@[k].1@)
                            == rebased_path(self.root@, self.destination@, files[k]),
                    None => exists|k: int|
                        0 <= k < files.len() && rebased_path(
                            self.root@,
                            self.destination@,
                            files[k],
                        ) is None,
                }
            }),
    {
        let mut plan: Vec<(String, String)> = Vec::new();
        let mut i: usize = 0;
        while i < self.to_copy.len()
            invariant
                i <= self.to_copy@.len(),
                plan@.len() == i,
                forall|k: int|
                    #![trigger plan@[k]]
                    0 <= k < i ==> plan@[k].0@ == self.to_copy.deep_view()[k] && Some(plan@[k].1@)
                        == rebased_path(
                        self.root@,
                        self.destination@,
                        self.to_copy.deep_view()[k],
                    ),
            decreases self.to_copy@.len() - i,
        {
            let file = &self.to_copy[i];
            proof {
                assert(self.to_copy.deep_view()[i as int] == file@);
            }
            match self.rebase_one(file) {
                Some(dst) => {
                    plan.push((file.clone(), dst));
                },
                None => {
                    return None;
                },
            }
            i += 1;
        }
        Some(plan)
    }
}

} // verus!
