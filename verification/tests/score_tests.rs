use fuzzyserve::normalize::normalize;
use fuzzyserve::score::{similarity, MatchScore};

fn as_real(score: &MatchScore) -> f64 {
    score.numerator() as f64 / score.denominator() as f64
}

#[test]
fn similarity_kitten_sitting() {
    let s = similarity("kitten", "sitting");
    assert_eq!(s.distance, 3);
    assert_eq!(s.longest, 7);
    assert_eq!(s.numerator(), 4);
    assert_eq!(s.denominator(), 7);
    assert!((as_real(&s) - 0.57142).abs() < 0.00001);
}

#[test]
fn similarity_of_empty_keys_is_one() {
    let s = similarity("", "");
    assert_eq!(s.distance, 0);
    assert_eq!(s.longest, 0);
    assert!(s.is_perfect());
    assert_eq!(as_real(&s), 1.0);
}

#[test]
fn similarity_empty_against_nonempty_is_zero() {
    let s = similarity("", "second");
    assert_eq!(s.numerator(), 0);
    assert_eq!(as_real(&s), 0.0);
    let t = similarity("first", "");
    assert_eq!(t.numerator(), 0);
    assert!(!t.clears_threshold());
}

#[test]
fn identity_scores_one() {
    for s in ["The Matrix (1999)", "a", "Inception", "x y z"] {
        let key = normalize(s);
        let score = similarity(&key, &key);
        assert_eq!(score.distance, 0);
        assert!(score.is_perfect());
        assert_eq!(as_real(&score), 1.0);
    }
}

#[test]
fn similarity_counts_characters() {
    let s = similarity("é", "e");
    assert_eq!(s.distance, 1);
    assert_eq!(s.longest, 1);
}

#[test]
fn threshold_is_strict() {
    let exactly = MatchScore { distance: 7, longest: 10 };
    assert!(!exactly.clears_threshold());
    let just_above = MatchScore { distance: 69999, longest: 100000 };
    assert!(just_above.clears_threshold());
    let just_below = MatchScore { distance: 70001, longest: 100000 };
    assert!(!just_below.clears_threshold());
}

#[test]
fn threshold_on_extremes() {
    assert!(MatchScore { distance: 0, longest: 0 }.clears_threshold());
    assert!(MatchScore { distance: 0, longest: 5 }.clears_threshold());
    assert!(!MatchScore { distance: 5, longest: 5 }.clears_threshold());
    assert!(MatchScore { distance: 0, longest: usize::MAX }.clears_threshold());
    assert!(!MatchScore { distance: usize::MAX, longest: usize::MAX }.clears_threshold());
}

#[test]
fn better_than_is_strict() {
    let half = MatchScore { distance: 1, longest: 2 };
    let also_half = MatchScore { distance: 3, longest: 6 };
    let third = MatchScore { distance: 2, longest: 3 };
    assert!(half.is_better_than(&third));
    assert!(!third.is_better_than(&half));
    assert!(!half.is_better_than(&also_half));
    assert!(!also_half.is_better_than(&half));
    assert!(!half.is_better_than(&half));
}

#[test]
fn better_than_on_large_values() {
    let a = MatchScore { distance: 1, longest: usize::MAX };
    let b = MatchScore { distance: 2, longest: usize::MAX };
    assert!(a.is_better_than(&b));
    assert!(!b.is_better_than(&a));
}

#[test]
fn numerator_and_denominator() {
    let s = MatchScore { distance: 3, longest: 10 };
    assert_eq!(s.numerator(), 7);
    assert_eq!(s.denominator(), 10);
    let e = MatchScore { distance: 0, longest: 0 };
    assert_eq!(e.numerator(), 1);
    assert_eq!(e.denominator(), 1);
    let over = MatchScore { distance: 12, longest: 10 };
    assert_eq!(over.numerator(), 0);
    assert_eq!(over.denominator(), 10);
}
