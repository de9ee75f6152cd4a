//! Ratings: how close two keys are, as an exact fraction between 0 and 1.
use vstd::prelude::*;
use vstd::string::StrSliceExecFns;
use crate::normalize::normalize_spec;

verus! {

/// The least of three numbers.
pub open spec fn min3(a: nat, b: nat, c: nat) -> nat {
    if a <= b && a <= c {
        a
    } else if b <= c {
        b
    } else {
        c
    }
}

/// The least number of insertions, deletions and substitutions of single
/// characters that turn `a` into `b`.
pub open spec fn edit_distance(a: Seq<char>, b: Seq<char>) -> nat
    decreases a.len() + b.len(),
{
    if a.len() == 0 {
        b.len()
    } else if b.len() == 0 {
        a.len()
    } else {
        let change: nat = if a.last() == b.last() { 0 } else { 1 };
        min3(
            edit_distance(a.drop_last(), b) + 1,
            edit_distance(a, b.drop_last()) + 1,
            edit_distance(a.drop_last(), b.drop_last()) + change,
        )
    }
}

/// The larger of two lengths.
pub open spec fn longer(a: nat, b: nat) -> nat {
    if a >= b {
        a
    } else {
        b
    }
}

/// A similarity as mathematics sees it: `1 - distance / longest`, and 1 where
/// `longest` is 0. It is held as the fraction `numerator() / denominator()`.
pub ghost struct Rating {
    pub distance: nat,
    pub longest: nat,
}

impl Rating {
    pub open spec fn numerator(self) -> nat {
        if self.longest == 0 {
            1
        } else if self.distance >= self.longest {
            0
        } else {
            (self.longest - self.distance) as nat
        }
    }

    pub open spec fn denominator(self) -> nat {
        if self.longest == 0 {
            1
        } else {
            self.longest
        }
    }

    /// The rating is 1: the two keys are the same.
    pub open spec fn is_one(self) -> bool {
        self.numerator() == self.denominator()
    }

    /// The rating is 0.
    pub open spec fn is_zero(self) -> bool {
        self.numerator() == 0
    }

    /// `self` is strictly greater than `other`.
    pub open spec fn exceeds(self, other: Rating) -> bool {
        self.numerator() * other.denominator() > other.numerator() * self.denominator()
    }

    /// `self` is strictly greater than three tenths.
    pub open spec fn above_threshold(self) -> bool {
        10 * self.numerator() > 3 * self.denominator()
    }
}

/// The rating of key `b` against key `a`.
pub open spec fn score_of(a: Seq<char>, b: Seq<char>) -> Rating {
    Rating { distance: edit_distance(a, b), longest: longer(a.len(), b.len()) }
}

/// A similarity between two keys: the edit distance between them and the
/// length of the longer one.
#[derive(Clone, Copy, Debug)]
pub struct MatchScore {
    pub distance: usize,
    pub longest: usize,
}

impl View for MatchScore {
    type V = Rating;

    open spec fn view(&self) -> Rating {
        Rating { distance: self.distance as nat, longest: self.longest as nat }
    }
}

/// Calls `strsim::levenshtein`. Trusted: the result is the edit distance
/// between the two strings, counted in characters.
#[verifier::external_body]
fn levenshtein(a: &str, b: &str) -> (d: usize)
    ensures
        d == edit_distance(a@, b@),
{
    strsim::levenshtein(a, b)
}

/// A key is at distance 0 from itself.
pub proof fn lemma_edit_distance_self(a: Seq<char>)
    ensures
        edit_distance(a, a) == 0,
    decreases a.len(),
{
    if a.len() > 0 {
        lemma_edit_distance_self(a.drop_last());
    }
}

/// Only equal keys are at distance 0 from each other.
pub proof fn lemma_edit_distance_zero(a: Seq<char>, b: Seq<char>)
    requires
        edit_distance(a, b) == 0,
    ensures
        a == b,
    decreases a.len() + b.len(),
{
    if a.len() > 0 && b.len() > 0 {
        lemma_edit_distance_zero(a.drop_last(), b.drop_last());
        assert(a =~= a.drop_last().push(a.last()));
        assert(b =~= b.drop_last().push(b.last()));
    } else {
        assert(a =~= b);
    }
}

/// A rating is 1 exactly if the two keys are the same.
pub proof fn lemma_one_iff_equal(a: Seq<char>, b: Seq<char>)
    ensures
        score_of(a, b).is_one() <==> a == b,
{
    if a == b {
        lemma_edit_distance_self(a);
    }
    if score_of(a, b).is_one() {
        lemma_edit_distance_bounded(a, b);
        lemma_edit_distance_zero(a, b);
    }
}

/// No distance is greater than the longer of the two lengths.
pub proof fn lemma_edit_distance_bounded(a: Seq<char>, b: Seq<char>)
    ensures
        edit_distance(a, b) <= longer(a.len(), b.len()),
    decreases a.len() + b.len(),
{
    if a.len() > 0 && b.len() > 0 {
        lemma_edit_distance_bounded(a.drop_last(), b.drop_last());
    }
}

/// Every rating lies between 0 and 1: it is one minus the distance over the
/// longer length, and the distance is no more than that length. An empty key
/// rates 1 against an empty key and 0 against any other.
pub proof fn lemma_rating_range(a: Seq<char>, b: Seq<char>)
    ensures
        score_of(a, b).denominator() > 0,
        score_of(a, b).numerator() <= score_of(a, b).denominator(),
        longer(a.len(), b.len()) > 0 ==> score_of(a, b).numerator() + edit_distance(a, b)
            == score_of(a, b).denominator(),
        a.len() == 0 && b.len() == 0 ==> score_of(a, b).is_one(),
        (a.len() == 0) != (b.len() == 0) ==> score_of(a, b).is_zero(),
{
    lemma_edit_distance_bounded(a, b);
}

/// The key of any string rates 1 against itself.
pub proof fn lemma_identity_scores_one(s: Seq<char>)
    ensures
        score_of(normalize_spec(s), normalize_spec(s)).is_one(),
{
    lemma_edit_distance_self(normalize_spec(s));
}

/// A rating above one that is not below a third one is above the third.
pub proof fn lemma_exceeds_chain(a: Rating, b: Rating, c: Rating)
    requires
        a.exceeds(b),
        !c.exceeds(b),
    ensures
        a.exceeds(c),
{
    lemma_cross(
        a.numerator() as int,
        a.denominator() as int,
        b.numerator() as int,
        b.denominator() as int,
        c.numerator() as int,
        c.denominator() as int,
    );
}

/// A rating that is not below one above the threshold is above it too.
pub proof fn lemma_threshold_monotone(a: Rating, b: Rating)
    requires
        b.above_threshold(),
        !b.exceeds(a),
    ensures
        a.above_threshold(),
{
    let (an, ad) = (a.numerator() as int, a.denominator() as int);
    let (bn, bd) = (b.numerator() as int, b.denominator() as int);
    assert(10 * an > 3 * ad) by (nonlinear_arith)
        requires
            10 * bn > 3 * bd,
            bn * ad <= an * bd,
            ad > 0,
            bd > 0,
            an >= 0,
            bn >= 0,
    {
        assert(10 * bn * ad > 3 * bd * ad);
        assert(10 * (bn * ad) <= 10 * (an * bd));
        assert((10 * an) * bd > (3 * ad) * bd);
    }
}

/// For fractions with positive denominators: `an/ad > bn/bd >= cn/cd` gives
/// `an/ad > cn/cd`.
proof fn lemma_cross(an: int, ad: int, bn: int, bd: int, cn: int, cd: int)
    requires
        ad > 0,
        bd > 0,
        cd > 0,
        an * bd > bn * ad,
        cn * bd <= bn * cd,
    ensures
        an * cd > cn * ad,
{
    assert(an * cd > cn * ad) by (nonlinear_arith)
        requires
            ad > 0,
            bd > 0,
            cd > 0,
            an * bd > bn * ad,
            cn * bd <= bn * cd,
    {
        assert((an * bd) * cd > (bn * ad) * cd);
        assert((cn * bd) * ad <= (bn * cd) * ad);
        assert((bn * ad) * cd == (bn * cd) * ad);
        assert((an * cd) * bd > (cn * ad) * bd);
    }
}

impl MatchScore {
    /// The numerator of the rating.
    pub fn numerator(&self) -> (n: usize)
        ensures
            n == self@.numerator(),
    {
        if self.longest == 0 {
            1
        } else if self.distance >= self.longest {
            0
        } else {
            self.longest - self.distance
        }
    }

    /// The denominator of the rating.
    pub fn denominator(&self) -> (n: usize)
        ensures
            n == self@.denominator(),
    {
        if self.longest == 0 {
            1
        } else {
            self.longest
        }
    }

    /// Tells whether this rating is strictly greater than `other`.
    pub fn is_better_than(&self, other: &MatchScore) -> (r: bool)
        ensures
            r == self@.exceeds(other@),
    {
        let left: u128 = wide_product(self.numerator(), other.denominator());
        let right: u128 = wide_product(other.numerator(), self.denominator());
        left > right
    }

    /// Tells whether this rating is strictly greater than three tenths.
    pub fn clears_threshold(&self) -> (r: bool)
        ensures
            r == self@.above_threshold(),
    {
        let left: u128 = wide_product(10, self.numerator());
        let right: u128 = wide_product(3, self.denominator());
        left > right
    }

    /// Tells whether this rating is 1.
    pub fn is_perfect(&self) -> (r: bool)
        ensures
            r == self@.is_one(),
    {
        self.numerator() == self.denominator()
    }
}

/// The product of two machine words, which always fits in 128 bits.
fn wide_product(a: usize, b: usize) -> (p: u128)
    ensures
        p == a * b,
{
    assert(a * b <= 0xffff_ffff_ffff_ffff * 0xffff_ffff_ffff_ffff) by (nonlinear_arith)
        requires
            0 <= a <= 0xffff_ffff_ffff_ffff,
            0 <= b <= 0xffff_ffff_ffff_ffff,
    ;
    (a as u128) * (b as u128)
}

/// Rates `candidate` against `query`: one minus the edit distance over the
/// longer length, and 1 where both are empty.
pub fn similarity(query: &str, candidate: &str) -> (r: MatchScore)
    ensures
        r@ == score_of(query@, candidate@),
{
    let distance: usize = levenshtein(query, candidate);
    let a: usize = query.unicode_len();
    let b: usize = candidate.unicode_len();
    let longest: usize = if a >= b { a } else { b };
    MatchScore { distance, longest }
}

} // verus!
