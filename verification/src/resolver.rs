use vstd::prelude::*;

use unicode_normalization::UnicodeNormalization;

verus! {

use vstd::string::*;

/// Unicode Normalization Form C of a string: a pure function of its
/// characters.
pub uninterp spec fn nfc_of(s: Seq<char>) -> Seq<char>;

/// The Unicode lowercase mapping of a string: a pure function of its
/// characters.
pub uninterp spec fn lower_of(s: Seq<char>) -> Seq<char>;

/// Relies on unicode_normalization's `nfc` iterator adapter: the NFC
/// normalization of a string depends on its characters alone.
#[verifier::external_body]
fn nfc_normalize(s: &str) -> (r: String)
    ensures
        r@ == nfc_of(s@),
{
    s.nfc().collect()
}

/// Relies on str::to_lowercase: the Unicode lowercase mapping depends on the
/// characters alone.
#[verifier::external_body]
fn lowercase(s: &str) -> (r: String)
    ensures
        r@ == lower_of(s@),
{
    s.to_lowercase()
}

/// The characters of the default document extension, with its dot.
pub open spec fn md_suffix() -> Seq<char> {
    seq!['.', 'm', 'd']
}

/// `s` names the trailing path segments of `p`: it is a suffix of `p` that
/// begins right after a `/` (or takes all of `p`).
pub open spec fn suffix_match(p: Seq<char>, s: Seq<char>) -> bool {
    &&& s.len() <= p.len()
    &&& p.skip(p.len() - s.len()) == s
    &&& (p.len() == s.len() || p[p.len() - s.len() - 1] == '/')
}

/// Does the candidate path match the reference's file text? Both sides are
/// compared in NFC; the file text may also match with the default document
/// extension appended, and both comparisons are retried in lowercase.
pub open spec fn ref_matches_path(path: Seq<char>, file: Seq<char>) -> bool {
    let pn = nfc_of(path);
    let fn_nfc = nfc_of(file);
    ||| suffix_match(pn, fn_nfc)
    ||| suffix_match(pn, fn_nfc + md_suffix())
    ||| suffix_match(lower_of(pn), lower_of(fn_nfc))
    ||| suffix_match(lower_of(pn), lower_of(fn_nfc) + md_suffix())
}

/// The first index at or after `i` whose path matches the file text, if any.
pub open spec fn find_match(vault: Seq<Seq<char>>, file: Seq<char>, i: int) -> Option<int>
    decreases vault.len() - i,
{
    if i < 0 || i >= vault.len() {
        None
    } else if ref_matches_path(vault[i], file) {
        Some(i)
    } else {
        find_match(vault, file, i + 1)
    }
}

/// Does `s` name the trailing path segments of `p`?
fn str_suffix_match(p: &str, s: &str) -> (r: bool)
    ensures
        r == suffix_match(p@, s@),
{
    let np = p.unicode_len();
    let ns = s.unicode_len();
    if ns > np {
        return false;
    }
    if np > ns && p.get_char(np - ns - 1) != '/' {
        return false;
    }
    let mut k: usize = 0;
    while k < ns
        invariant
            k <= ns,
            ns <= np,
            np == p@.len(),
            ns == s@.len(),
            forall|j: int| 0 <= j < k ==> p@[np - ns + j] == s@[j],
        decreases ns - k,
    {
        if p.get_char(np - ns + k) != s.get_char(k) {
            proof {
                assert(p@.skip(np as int - ns as int)[k as int] == p@[np - ns + k]);
            }
            return false;
        }
        k += 1;
    }
    proof {
        assert(p@.skip(np as int - ns as int) =~= s@);
    }
    true
}

/// Find the file a reference's file text names: the first vault path, in
/// index order, that matches it under the normalization and extension
/// fallback rules; `None` when no path matches.
pub fn lookup_filename_in_vault(filename: &str, vault_contents: &Vec<String>) -> (r: Option<
    String,
>)
    ensures
        ({
            let f = find_match(vault_contents.deep_view(), filename@, 0);
            match f {
                Some(i) => r matches Some(p) && 0 <= i < vault_contents@.len() && p@
                    == vault_contents.deep_view()[i],
                None => r is None,
            }
        }),
{
    proof {
        reveal_strlit(".md");
        assert(".md"@ =~= md_suffix());
    }
    let fn_nfc = nfc_normalize(filename);
    let fn_md = fn_nfc.clone().concat(".md");
    let fn_low = lowercase(fn_nfc.as_str());
    let fn_low_md = fn_low.clone().concat(".md");
    let ghost vault = vault_contents.deep_view();
    let mut idx: usize = 0;
    while idx < vault_contents.len()
        invariant
            idx <= vault_contents@.len(),
            vault == vault_contents.deep_view(),
            fn_nfc@ == nfc_of(filename@),
            fn_md@ == nfc_of(filename@) + md_suffix(),
            fn_low@ == lower_of(nfc_of(filename@)),
            fn_low_md@ == lower_of(nfc_of(filename@)) + md_suffix(),
            find_match(vault, filename@, 0) == find_match(vault, filename@, idx as int),
        decreases vault_contents@.len() - idx,
    {
        let path = &vault_contents[idx];
        proof {
            assert(vault[idx as int] == path@);
        }
        let pn = nfc_normalize(path.as_str());
        let pl = lowercase(pn.as_str());
        let hit = str_suffix_match(pn.as_str(), fn_nfc.as_str()) || str_suffix_match(
            pn.as_str(),
            fn_md.as_str(),
        ) || str_suffix_match(pl.as_str(), fn_low.as_str()) || str_suffix_match(
            pl.as_str(),
            fn_low_md.as_str(),
        );
        if hit {
            proof {
                assert(ref_matches_path(vault[idx as int], filename@));
                assert(find_match(vault, filename@, idx as int) == Some(idx as int));
            }
            return Some(path.clone());
        }
        proof {
            assert(find_match(vault, filename@, idx as int) == find_match(
                vault,
                filename@,
                idx as int + 1,
            ));
        }
        idx += 1;
    }
    None
}

/// A path names a document eligible for scanning exactly when its extension
/// is the default document extension: it ends in `.md` and the dot does not
/// begin the file name.
pub open spec fn is_markdown_path(p: Seq<char>) -> bool {
    &&& p.len() >= 4
    &&& p.skip(p.len() - 3) == md_suffix()
    &&& p[p.len() - 4] != '/'
}

/// Is this file a document that takes part in selection?
pub fn is_markdown_file(path: &String) -> (r: bool)
    ensures
        r == is_markdown_path(path@),
{
    let n = path.as_str().unicode_len();
    if n < 4 {
        return false;
    }
    let r = path.as_str().get_char(n - 3) == '.' && path.as_str().get_char(n - 2) == 'm'
        && path.as_str().get_char(n - 1) == 'd' && path.as_str().get_char(n - 4) != '/';
    proof {
        if path@[n - 3] == '.' && path@[n - 2] == 'm' && path@[n - 1] == 'd' {
            assert(path@.skip(n as int - 3) =~= md_suffix());
        } else {
            assert(path@.skip(n as int - 3)[0] == path@[n - 3]);
            assert(path@.skip(n as int - 3)[1] == path@[n - 2]);
            assert(path@.skip(n as int - 3)[2] == path@[n - 1]);
        }
    }
    r
}

} // verus!
