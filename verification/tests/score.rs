use typing_game::{calculate_wpm, Score};

#[test]
fn default_is_empty() {
    let score = Score::default();
    assert_eq!(score, Score { correct: 0, errors: 0, time: None, wpm: None });
    assert!(score.is_empty());
}

#[test]
fn any_payload_makes_a_score() {
    assert!(!Score { correct: 1, errors: 0, time: None, wpm: None }.is_empty());
    assert!(!Score { correct: 0, errors: 1, time: None, wpm: None }.is_empty());
    assert!(!Score { correct: 0, errors: 0, time: Some(0), wpm: None }.is_empty());
    assert!(!Score { correct: 0, errors: 0, time: None, wpm: Some(0) }.is_empty());
}

#[test]
fn rate_formula() {
    assert_eq!(calculate_wpm(50, 30_000), 20);
    assert_eq!(calculate_wpm(5, 60_000), 1);
    assert_eq!(calculate_wpm(4, 60_000), 0);
    assert_eq!(calculate_wpm(0, 1_000), 0);
    assert_eq!(calculate_wpm(7, 11_000), 7);
}

#[test]
fn rate_rounds_the_seconds() {
    assert_eq!(calculate_wpm(10, 500), 120);
    assert_eq!(calculate_wpm(10, 1_499), 120);
    assert_eq!(calculate_wpm(10, 1_500), 60);
    assert_eq!(calculate_wpm(10, 2_499), 60);
    assert_eq!(calculate_wpm(10, 2_500), 40);
}

#[test]
fn rate_at_the_limits() {
    assert_eq!(calculate_wpm(357_913_941, 1_000), 4_294_967_292);
    assert_eq!(calculate_wpm(1, u64::MAX), 0);
}
