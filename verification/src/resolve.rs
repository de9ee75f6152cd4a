//! Resolution: from a query and the candidate paths to the best candidate.
use vstd::prelude::*;
use crate::normalize::{normalize, normalize_spec};
use crate::paths::{file_stem, file_stem_of, text_of};
use crate::score::{
    lemma_exceeds_chain, lemma_threshold_monotone, score_of, similarity, MatchScore, Rating,
};

verus! {

/// The key of a query: the key of its file stem where it has one, else of the
/// whole query.
pub open spec fn query_key(query: Seq<char>) -> Seq<char> {
    match file_stem_of(query) {
        Some(stem) => normalize_spec(stem),
        None => normalize_spec(query),
    }
}

/// The rating of the candidate `path` against the key `key`; a path without a
/// file stem has none.
pub open spec fn candidate_rating(key: Seq<char>, path: Seq<char>) -> Option<Rating> {
    match file_stem_of(path) {
        Some(stem) => Some(score_of(key, normalize_spec(stem))),
        None => None,
    }
}

/// The ratings of all candidates against a query, in the candidates' order.
pub open spec fn ratings(query: Seq<char>, files: Seq<Seq<char>>) -> Seq<Option<Rating>> {
    Seq::new(files.len(), |i: int| candidate_rating(query_key(query), files[i]))
}

/// The characters of each path.
pub open spec fn paths_of(files: Seq<String>) -> Seq<Seq<char>> {
    Seq::new(files.len(), |i: int| files[i]@)
}

/// The rating that an optional score stands for.
pub open spec fn rating_of(score: Option<MatchScore>) -> Option<Rating> {
    match score {
        Some(s) => Some(s@),
        None => None,
    }
}

/// The ratings that a list of optional scores stands for.
pub open spec fn ratings_of(scores: Seq<Option<MatchScore>>) -> Seq<Option<Rating>> {
    Seq::new(scores.len(), |i: int| rating_of(scores[i]))
}

/// Among the first `n` ratings, the one at `i` is the first of those that no
/// other exceeds.
pub open spec fn is_best_among(r: Seq<Option<Rating>>, n: int, i: int) -> bool {
    &&& 0 <= i < n <= r.len()
    &&& r[i] is Some
    &&& forall|j: int| 0 <= j < n && (#[trigger] r[j]) is Some ==> !r[j]->0.exceeds(r[i]->0)
    &&& forall|j: int| 0 <= j < i && (#[trigger] r[j]) is Some ==> r[i]->0.exceeds(r[j]->0)
}

/// The rating at `i` is the first of the highest ratings.
pub open spec fn is_best(r: Seq<Option<Rating>>, i: int) -> bool {
    is_best_among(r, r.len() as int, i)
}

/// The rating at `i` is the first of the highest and lies above the
/// threshold.
pub open spec fn is_winner(r: Seq<Option<Rating>>, i: int) -> bool {
    is_best(r, i) && r[i]->0.above_threshold()
}

/// The answer to a query: the first of the highest-rated candidates, if its
/// rating lies above the threshold.
pub open spec fn best_match(query: Seq<char>, files: Seq<Seq<char>>) -> Option<Seq<char>> {
    let r = ratings(query, files);
    if exists|i: int| is_winner(r, i) {
        Some(files[choose|i: int| is_winner(r, i)])
    } else {
        None
    }
}

/// An empty candidate list has no match, whatever the query.
pub proof fn lemma_empty_no_match(query: Seq<char>)
    ensures
        best_match(query, Seq::empty()) is None,
{
    let r = ratings(query, Seq::empty());
    assert forall|i: int| !is_winner(r, i) by {}
}

/// At most one rating is the first of the highest.
pub proof fn lemma_best_unique(r: Seq<Option<Rating>>, i: int, j: int)
    requires
        is_best(r, i),
        is_best(r, j),
    ensures
        i == j,
{
    if i < j {
        assert(r[j]->0.exceeds(r[i]->0));
    } else if j < i {
        assert(r[i]->0.exceeds(r[j]->0));
    }
}

/// There is an answer exactly if some candidate's rating lies above the
/// threshold.
pub proof fn lemma_match_iff_some_clears(query: Seq<char>, files: Seq<Seq<char>>)
    ensures
        best_match(query, files) is Some <==> exists|i: int|
            0 <= i < files.len() && (#[trigger] ratings(query, files)[i]) is Some && ratings(
                query,
                files,
            )[i]->0.above_threshold(),
{
    let r = ratings(query, files);
    if exists|i: int| 0 <= i < files.len() && (#[trigger] r[i]) is Some && r[i]->0.above_threshold() {
        let k = choose|i: int| 0 <= i < files.len() && (#[trigger] r[i]) is Some && r[i]->0.above_threshold();
        let b = lemma_best_exists(r, r.len() as int);
        lemma_threshold_monotone(r[b]->0, r[k]->0);
        assert(is_winner(r, b));
    }
    if best_match(query, files) is Some {
        let w = choose|i: int| is_winner(r, i);
        assert(0 <= w < files.len() && r[w] is Some && r[w]->0.above_threshold());
    }
}

/// Where one of the first `n` ratings exists, one of them is the first of
/// the highest.
pub proof fn lemma_best_exists(r: Seq<Option<Rating>>, n: int) -> (b: int)
    requires
        0 <= n <= r.len(),
        exists|i: int| 0 <= i < n && (#[trigger] r[i]) is Some,
    ensures
        is_best_among(r, n, b),
    decreases n,
{
    let last = n - 1;
    if exists|i: int| 0 <= i < last && (#[trigger] r[i]) is Some {
        let p = lemma_best_exists(r, last);
        if r[last] is Some && r[last]->0.exceeds(r[p]->0) {
            lemma_new_best(r, last, p);
            last
        } else {
            p
        }
    } else {
        assert(r[last] is Some);
        last
    }
}

/// A rating at `n` that exceeds the best of the first `n` is the best of the
/// first `n + 1`.
proof fn lemma_new_best(r: Seq<Option<Rating>>, n: int, p: int)
    requires
        is_best_among(r, n, p),
        n < r.len(),
        r[n] is Some,
        r[n]->0.exceeds(r[p]->0),
    ensures
        is_best_among(r, n + 1, n),
{
    let s = r[n]->0;
    assert forall|j: int| 0 <= j < n && (#[trigger] r[j]) is Some implies s.exceeds(r[j]->0) by {
        lemma_exceeds_chain(s, r[p]->0, r[j]->0);
    }
}

/// The key of a query.
pub fn key_of_query(query: &str) -> (key: String)
    ensures
        key@ == query_key(query@),
{
    match file_stem(query) {
        Some(stem) => normalize(stem),
        None => normalize(query),
    }
}

/// Rates one candidate path against the key of the query. A path without a
/// file stem gets no rating.
pub fn rate_candidate(key: &str, path: &str) -> (r: Option<MatchScore>)
    ensures
        rating_of(r) == candidate_rating(key@, path@),
{
    match file_stem(path) {
        Some(stem) => {
            let candidate = normalize(stem);
            Some(similarity(key, candidate.as_str()))
        },
        None => None,
    }
}

/// Rates every candidate against the query, in the candidates' order.
pub fn rate_candidates(query: &str, files: &[String]) -> (scores: Vec<Option<MatchScore>>)
    ensures
        ratings_of(scores@) == ratings(query@, paths_of(files@)),
{
    let key = key_of_query(query);
    let mut scores: Vec<Option<MatchScore>> = Vec::new();
    let n: usize = files.len();
    for i in 0..n
        invariant
            n == files@.len(),
            key@ == query_key(query@),
            scores@.len() == i,
            forall|j: int|
                0 <= j < i ==> rating_of(#[trigger] scores@[j]) == candidate_rating(
                    key@,
                    files@[j]@,
                ),
    {
        let score = rate_candidate(key.as_str(), files[i].as_str());
        scores.push(score);
    }
    assert(ratings_of(scores@) =~= ratings(query@, paths_of(files@)));
    scores
}

/// Picks the highest score; among equal highest scores, the first. There is
/// none exactly if no candidate has a score.
pub fn select_best(scores: &Vec<Option<MatchScore>>) -> (best: Option<usize>)
    ensures
        best matches Some(i) ==> is_best(ratings_of(scores@), i as int),
        best is None ==> forall|j: int| 0 <= j < scores@.len() ==> (#[trigger] scores@[j]) is None,
{
    let ghost r = ratings_of(scores@);
    let mut best: Option<usize> = None;
    let n: usize = scores.len();
    for i in 0..n
        invariant
            n == scores@.len(),
            r == ratings_of(scores@),
            match best {
                Some(b) => is_best_among(r, i as int, b as int),
                None => forall|j: int| 0 <= j < i ==> (#[trigger] r[j]) is None,
            },
    {
        match scores[i] {
            Some(score) => {
                match best {
                    Some(b) => {
                        let leader = scores[b].unwrap();
                        if score.is_better_than(&leader) {
                            proof {
                                lemma_new_best(r, i as int, b as int);
                            }
                            best = Some(i);
                        }
                    },
                    None => {
                        best = Some(i);
                    },
                }
            },
            None => {},
        }
    }
    proof {
        if best is None {
            assert forall|j: int| 0 <= j < scores@.len() implies (#[trigger] scores@[j]) is None by {
                assert(r[j] is None);
            }
        }
    }
    best
}

/// Resolves a query to one of the candidate paths: the first of the
/// highest-rated candidates, if its rating is strictly greater than three
/// tenths; otherwise there is no match.
pub fn find_best_match<'a>(query: &str, files: &'a [String]) -> (found: Option<&'a str>)
    ensures
        text_of(found) == best_match(query@, paths_of(files@)),
        files@.len() == 0 ==> found is None,
        found is Some <==> exists|i: int|
            0 <= i < files@.len() && (#[trigger] ratings(query@, paths_of(files@))[i]) is Some
                && ratings(query@, paths_of(files@))[i]->0.above_threshold(),
{
    proof {
        lemma_match_iff_some_clears(query@, paths_of(files@));
    }
    let scores = rate_candidates(query, files);
    let ghost r = ratings(query@, paths_of(files@));
    match select_best(&scores) {
        Some(i) => {
            let top = scores[i].unwrap();
            if top.clears_threshold() {
                proof {
                    assert(is_winner(r, i as int));
                    let k = choose|k: int| is_winner(r, k);
                    lemma_best_unique(r, i as int, k);
                }
                Some(files[i].as_str())
            } else {
                proof {
                    assert forall|k: int| !is_winner(r, k) by {
                        if is_winner(r, k) {
                            lemma_threshold_monotone(r[i as int]->0, r[k]->0);
                        }
                    }
                }
                None
            }
        },
        None => {
            proof {
                assert forall|k: int| !is_winner(r, k) by {
                    if is_winner(r, k) {
                        assert(ratings_of(scores@)[k] is Some);
                        assert(scores@[k] is None);
                    }
                }
            }
            None
        },
    }
}

} // verus!
