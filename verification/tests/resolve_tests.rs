use fuzzyserve::resolve::{
    find_best_match, key_of_query, rate_candidate, rate_candidates, select_best,
};
use fuzzyserve::score::MatchScore;

fn names(list: &[&str]) -> Vec<String> {
    list.iter().map(|s| s.to_string()).collect()
}

#[test]
fn resolves_matrix() {
    let files = names(&["The.Matrix.1999.mkv"]);
    assert_eq!(find_best_match("the matrix 1999", &files), Some("The.Matrix.1999.mkv"));
}

#[test]
fn unrelated_query_has_no_match() {
    let files = names(&["Inception.mp4"]);
    assert_eq!(find_best_match("xyz completely unrelated", &files), None);
}

#[test]
fn equal_keys_resolve_to_the_first_every_time() {
    let files = names(&["Movie.mkv", "movie.mp4"]);
    for _ in 0..5 {
        assert_eq!(find_best_match("movie", &files), Some("Movie.mkv"));
    }
    let turned = names(&["movie.mp4", "Movie.mkv"]);
    for _ in 0..5 {
        assert_eq!(find_best_match("movie", &turned), Some("movie.mp4"));
    }
}

#[test]
fn empty_candidate_list_has_no_match() {
    let files: Vec<String> = Vec::new();
    assert_eq!(find_best_match("anything", &files), None);
    assert_eq!(find_best_match("", &files), None);
    assert_eq!(find_best_match("The.Matrix.1999.mkv", &files), None);
}

#[test]
fn best_of_several_wins() {
    let files = names(&["season1/Inception.mp4", "The.Matrix.1999.mkv", "Matrix Reloaded.avi"]);
    assert_eq!(find_best_match("matrix reloaded", &files), Some("Matrix Reloaded.avi"));
    assert_eq!(find_best_match("inceptoin", &files), Some("season1/Inception.mp4"));
}

#[test]
fn score_of_exactly_three_tenths_is_rejected() {
    let files = names(&["abcxxxxxxx.mkv"]);
    let scores = rate_candidates("abcdefghij", &files);
    let score = scores[0].unwrap();
    assert_eq!(score.distance, 7);
    assert_eq!(score.longest, 10);
    assert_eq!(find_best_match("abcdefghij", &files), None);
}

#[test]
fn score_just_above_three_tenths_is_accepted() {
    let files = names(&["abcdxxxxxx.mkv"]);
    let scores = rate_candidates("abcdefghij", &files);
    let score = scores[0].unwrap();
    assert_eq!(score.distance, 6);
    assert_eq!(score.longest, 10);
    assert_eq!(find_best_match("abcdefghij", &files), Some("abcdxxxxxx.mkv"));
}

#[test]
fn query_key_uses_the_stem() {
    assert_eq!(key_of_query("The.Matrix.1999.mkv"), "thematrix1999");
    assert_eq!(key_of_query("some/dir/The Matrix.mkv"), "thematrix");
    assert_eq!(key_of_query("the matrix 1999"), "thematrix1999");
}

#[test]
fn query_without_a_stem_is_used_whole() {
    assert_eq!(key_of_query(""), "");
    assert_eq!(key_of_query(".."), "");
    assert_eq!(key_of_query("a/.."), "a");
}

#[test]
fn empty_query_matches_only_an_empty_key() {
    let files = names(&["Inception.mp4"]);
    assert_eq!(find_best_match("", &files), None);
    let odd = names(&["Inception.mp4", "---.mkv"]);
    assert_eq!(find_best_match("", &odd), Some("---.mkv"));
    assert_eq!(find_best_match("!!!", &odd), Some("---.mkv"));
}

#[test]
fn candidate_without_a_stem_is_left_out() {
    assert!(rate_candidate("movie", "..").is_none());
    assert!(rate_candidate("movie", "").is_none());
    let files = names(&["..", "movie.mkv"]);
    let scores = rate_candidates("movie", &files);
    assert_eq!(scores.len(), 2);
    assert!(scores[0].is_none());
    assert_eq!(scores[1].unwrap().distance, 0);
    assert_eq!(find_best_match("movie", &files), Some("movie.mkv"));
    let none = names(&["..", ""]);
    assert_eq!(find_best_match("movie", &none), None);
}

#[test]
fn candidate_rating_uses_the_file_name_only() {
    let score = rate_candidate("movie", "a/long/way/down/Movie.mkv").unwrap();
    assert_eq!(score.distance, 0);
    assert_eq!(score.longest, 5);
}

#[test]
fn select_best_picks_the_first_of_the_highest() {
    let scores = vec![
        Some(MatchScore { distance: 2, longest: 4 }),
        None,
        Some(MatchScore { distance: 1, longest: 4 }),
        Some(MatchScore { distance: 2, longest: 8 }),
        Some(MatchScore { distance: 3, longest: 4 }),
    ];
    assert_eq!(select_best(&scores), Some(2));
}

#[test]
fn select_best_of_nothing() {
    let empty: Vec<Option<MatchScore>> = Vec::new();
    assert_eq!(select_best(&empty), None);
    let none: Vec<Option<MatchScore>> = vec![None, None];
    assert_eq!(select_best(&none), None);
}

#[test]
fn select_best_ignores_the_threshold() {
    let scores = vec![None, Some(MatchScore { distance: 9, longest: 10 })];
    assert_eq!(select_best(&scores), Some(1));
}
