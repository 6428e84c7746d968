use vstd::prelude::*;

verus! {

use vstd::string::*;

/// What the metadata decoder yields for a raw metadata text: `None` when the
/// text is not a well-formed metadata mapping; otherwise, one entry per
/// element of the mapping's `tags` sequence — the string an element holds,
/// or `None` for a non-string element — and no entries when the mapping has
/// no `tags` sequence. Decoding is a pure function of the text.
pub uninterp spec fn frontmatter_tag_entries(s: Seq<char>) -> Option<Seq<Option<Seq<char>>>>;

/// Relies on serde_yaml::from_str and serde_yaml::Mapping::get: decodes the
/// metadata text as a YAML mapping and hands back the elements of its `tags`
/// sequence, each either the string it holds or `None`.
#[verifier::external_body]
fn decode_tag_entries(s: &str) -> (r: Option<Vec<Option<String>>>)
    ensures
        r.deep_view() == frontmatter_tag_entries(s@),
{
    let mapping: serde_yaml::Mapping = match serde_yaml::from_str(s) {
        Ok(m) => m,
        Err(_) => return None,
    };
    let mut out = Vec::new();
    if let Some(serde_yaml::Value::Sequence(tags)) = mapping.get("tags") {
        for tag in tags {
            out.push(match tag {
                serde_yaml::Value::String(x) => Some(x.clone()),
                _ => None,
            });
        }
    }
    Some(out)
}

/// The strings among the entries, in order, the non-strings dropped.
pub open spec fn collect_strings(entries: Seq<Option<Seq<char>>>) -> Seq<Seq<char>>
    decreases entries.len(),
{
    if entries.len() == 0 {
        Seq::empty()
    } else {
        let rest = collect_strings(entries.drop_first());
        match entries[0] {
            Some(t) => seq![t] + rest,
            None => rest,
        }
    }
}

pub proof fn lemma_collect_strings_snoc(entries: Seq<Option<Seq<char>>>, e: Option<Seq<char>>)
    ensures
        collect_strings(entries.push(e)) == collect_strings(entries) + (match e {
            Some(t) => seq![t],
            None => Seq::<Seq<char>>::empty(),
        }),
    decreases entries.len(),
{
    reveal_with_fuel(collect_strings, 3);
    if entries.len() == 0 {
        assert(entries.push(e)[0] == e);
        assert(entries.push(e).drop_first() =~= Seq::<Option<Seq<char>>>::empty());
        match e {
            Some(t) => {
                assert(collect_strings(entries.push(e)) =~= collect_strings(entries) + seq![t]);
            },
            None => {
                assert(collect_strings(entries.push(e)) =~= collect_strings(entries)
                    + Seq::<Seq<char>>::empty());
            },
        }
    } else {
        assert(entries.push(e)[0] == entries[0]);
        assert(entries.push(e).drop_first() =~= entries.drop_first().push(e));
        lemma_collect_strings_snoc(entries.drop_first(), e);
        match entries[0] {
            Some(t) => {
                match e {
                    Some(u) => {
                        assert((seq![t] + collect_strings(entries.drop_first())) + seq![u]
                            =~= seq![t] + (collect_strings(entries.drop_first()) + seq![u]));
                    },
                    None => {
                        assert((seq![t] + collect_strings(entries.drop_first()))
                            + Seq::<Seq<char>>::empty() =~= seq![t] + (collect_strings(
                            entries.drop_first(),
                        ) + Seq::<Seq<char>>::empty()));
                    },
                }
            },
            None => {},
        }
    }
}

/// The tag list of a document's metadata text: empty text means no metadata
/// and yields no tags; otherwise the strings of the decoded `tags` sequence,
/// or `None` when the text is malformed.
pub open spec fn spec_decode_tags(s: Seq<char>) -> Option<Seq<Seq<char>>> {
    if s.len() == 0 {
        Some(Seq::empty())
    } else {
        match frontmatter_tag_entries(s) {
            None => None,
            Some(entries) => Some(collect_strings(entries)),
        }
    }
}

/// Decode the metadata text and extract its tag list: `None` exactly when
/// the text is non-empty and not a well-formed metadata mapping; non-string
/// entries of the `tags` sequence are silently dropped.
pub fn decode_tags(s: &str) -> (r: Option<Vec<String>>)
    ensures
        r.deep_view() == spec_decode_tags(s@),
{
    if s.unicode_len() == 0 {
        let out: Vec<String> = Vec::new();
        proof {
            assert(out.deep_view() =~= Seq::<Seq<char>>::empty());
        }
        return Some(out);
    }
    match decode_tag_entries(s) {
        None => None,
        Some(entries) => {
            let mut out: Vec<String> = Vec::new();
            let mut i: usize = 0;
            proof {
                assert(entries.deep_view().take(0) =~= Seq::<Option<Seq<char>>>::empty());
                assert(out.deep_view() =~= Seq::<Seq<char>>::empty());
            }
            while i < entries.len()
                invariant
                    i <= entries@.len(),
                    frontmatter_tag_entries(s@) == Some(entries.deep_view()),
                    out.deep_view() == collect_strings(entries.deep_view().take(i as int)),
                decreases entries@.len() - i,
            {
                proof {
                    assert(entries.deep_view().take(i as int + 1) =~= entries.deep_view().take(
                        i as int,
                    ).push(entries.deep_view()[i as int]));
                    lemma_collect_strings_snoc(
                        entries.deep_view().take(i as int),
                        entries.deep_view()[i as int],
                    );
                    assert(entries.deep_view()[i as int] == entries@[i as int].deep_view());
                }
                match &entries[i] {
                    Some(t) => {
                        out.push(t.clone());
                        proof {
                            assert(out.deep_view() =~= collect_strings(
                                entries.deep_view().take(i as int + 1),
                            ));
                        }
                    },
                    None => {
                        proof {
                            assert(out.deep_view() =~= collect_strings(
                                entries.deep_view().take(i as int + 1),
                            ));
                        }
                    },
                }
                i += 1;
            }
            proof {
                assert(entries.deep_view().take(entries@.len() as int) =~= entries.deep_view());
            }
            Some(out)
        },
    }
}

} // verus!
