//! The catalog: which of the walked files are media, and how they are named.
use vstd::prelude::*;
use vstd::string::StrSliceExecFns;
use crate::normalize::{ascii_lower, ascii_lowered};
use crate::paths::{extension, extension_of, relative_to, strip_prefix};
use crate::resolve::{best_match, is_winner, paths_of, ratings};

verus! {

/// `ext`, read without regard to case, is `mkv`, `mp4`, `avi` or `mov`.
pub open spec fn is_media_extension_spec(ext: Seq<char>) -> bool {
    let e = ascii_lowered(ext);
    ||| e == seq!['m', 'k', 'v']
    ||| e == seq!['m', 'p', '4']
    ||| e == seq!['a', 'v', 'i']
    ||| e == seq!['m', 'o', 'v']
}

/// The file at `path` has a media extension.
pub open spec fn is_media_path(path: Seq<char>) -> bool {
    match extension_of(path) {
        Some(ext) => is_media_extension_spec(ext),
        None => false,
    }
}

/// The name under which the file at `path` is a candidate: its path relative
/// to `root`, if it is a media file below `root`.
pub open spec fn candidate_of(root: Seq<char>, path: Seq<char>) -> Option<Seq<char>> {
    if is_media_path(path) {
        relative_to(path, root)
    } else {
        None
    }
}

/// The candidates among the walked files, in the order of the walk.
pub open spec fn candidates_of(root: Seq<char>, walked: Seq<Seq<char>>) -> Seq<Seq<char>>
    decreases walked.len(),
{
    if walked.len() == 0 {
        Seq::empty()
    } else {
        let before = candidates_of(root, walked.drop_last());
        match candidate_of(root, walked.last()) {
            Some(name) => before.push(name),
            None => before,
        }
    }
}

/// Where no walked file has a media extension, there is no candidate, and
/// no query has a match.
pub proof fn lemma_no_media_no_match(root: Seq<char>, walked: Seq<Seq<char>>, query: Seq<char>)
    requires
        forall|i: int| 0 <= i < walked.len() ==> !is_media_path(#[trigger] walked[i]),
    ensures
        candidates_of(root, walked) == Seq::<Seq<char>>::empty(),
        best_match(query, candidates_of(root, walked)) is None,
    decreases walked.len(),
{
    if walked.len() > 0 {
        lemma_no_media_no_match(root, walked.drop_last(), query);
    }
    let r = ratings(query, candidates_of(root, walked));
    assert forall|i: int| !is_winner(r, i) by {}
}

/// The ASCII lower-case form of `c`.
pub fn to_ascii_lower(c: char) -> (r: char)
    ensures
        r == ascii_lower(c),
{
    if c >= 'A' && c <= 'Z' {
        ((c as u8) + 32) as char
    } else {
        c
    }
}

/// Tells whether `ext` is one of the media extensions `mkv`, `mp4`, `avi`
/// and `mov`, in any mix of upper and lower case.
pub fn is_media_extension(ext: &str) -> (r: bool)
    ensures
        r == is_media_extension_spec(ext@),
{
    let ghost e = ascii_lowered(ext@);
    if ext.unicode_len() != 3 {
        assert(e.len() != 3);
        assert(seq!['m', 'k', 'v'].len() == 3 && seq!['m', 'p', '4'].len() == 3);
        assert(seq!['a', 'v', 'i'].len() == 3 && seq!['m', 'o', 'v'].len() == 3);
        return false;
    }
    let a = to_ascii_lower(ext.get_char(0));
    let b = to_ascii_lower(ext.get_char(1));
    let c = to_ascii_lower(ext.get_char(2));
    assert(e =~= seq![a, b, c]);
    assert(seq![a, b, c][0] == a && seq![a, b, c][1] == b && seq![a, b, c][2] == c);
    (a == 'm' && b == 'k' && c == 'v') || (a == 'm' && b == 'p' && c == '4') || (a == 'a' && b
        == 'v' && c == 'i') || (a == 'm' && b == 'o' && c == 'v')
}

/// Tells whether the file at `path` is a media file: whether it has an
/// extension and that extension is a media extension.
pub fn is_media_file(path: &str) -> (r: bool)
    ensures
        r == is_media_path(path@),
{
    match extension(path) {
        Some(ext) => is_media_extension(ext),
        None => false,
    }
}

/// Lists the candidates among the files that a walk below `root` found: each
/// media file, by its path relative to `root`, in the order of the walk.
pub fn media_candidates(root: &str, walked: &[String]) -> (found: Vec<String>)
    ensures
        paths_of(found@) == candidates_of(root@, paths_of(walked@)),
{
    let mut found: Vec<String> = Vec::new();
    let n: usize = walked.len();
    let ghost all = paths_of(walked@);
    for i in 0..n
        invariant
            n == walked@.len(),
            all == paths_of(walked@),
            paths_of(found@) == candidates_of(root@, all.take(i as int)),
    {
        let path = walked[i].as_str();
        proof {
            assert(all.take(i + 1).drop_last() =~= all.take(i as int));
            assert(all.take(i + 1).last() == path@);
        }
        let ghost before = paths_of(found@);
        if is_media_file(path) {
            match strip_prefix(path, root) {
                Some(name) => {
                    let owned = name.to_owned();
                    found.push(owned);
                    assert(paths_of(found@) =~= before.push(name@));
                },
                None => {},
            }
        }
    }
    assert(all.take(n as int) =~= all);
    found
}

} // verus!
