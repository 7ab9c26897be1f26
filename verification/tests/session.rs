use typing_game::{
    parse_to_sets, ConfigError, DifficultyRange, Game, Mode, Modifiers, Outcome, Phase, Plan,
    Score, Session, StartError,
};

const PLAIN: Modifiers =
    Modifiers { skip_err: false, multiple: false, classic: false, accumulate: false };

const FULL: DifficultyRange = DifficultyRange { low: 1, high: 4 };

fn list(words: &[&str]) -> Vec<String> {
    words.iter().map(|w| w.to_string()).collect()
}

fn sample() -> Vec<String> {
    list(&["cat", "fish", "jumper", "wonderful", "extraordinary"])
}

/// One word in every tier, so that every draw is known.
fn fixed() -> Vec<String> {
    list(&["four", "sixsix", "ninechars", "twelve_chars"])
}

fn game(mode: Mode, words: Vec<String>, options: Modifiers, count: Option<Vec<u32>>) -> Game {
    Game { mode, word_sets: parse_to_sets(words), options, count }
}

fn line(word: &str) -> String {
    format!("{}\n", word)
}

#[test]
fn endless_credits_a_correct_word_and_repeats_a_wrong_one() {
    let game = game(Mode::Endless, sample(), PLAIN, None);
    let plan = Plan { goal: None, range: FULL };
    let mut session = Session::new(Mode::Endless, PLAIN, plan);
    assert_eq!(session.phase(), Phase::Seeding);
    session.enqueue("cat".to_string());
    assert_eq!(session.phase(), Phase::Fetch);
    assert!(session.advance(&game.word_sets));
    assert_eq!(session.target(), "cat");
    assert_eq!(session.submit(false, "cat\n", 1_200), Outcome::Match);
    assert_eq!(session.correct(), 1);
    assert_eq!(session.errors(), 0);
    assert_eq!(session.phase(), Phase::Fetch);

    assert!(session.advance(&game.word_sets));
    // "cat" has three characters: the word queued behind it is of tier 4
    assert_eq!(session.target(), "extraordinary");
    assert_eq!(session.submit(false, "extraordinarily\n", 900), Outcome::Mismatch);
    assert_eq!(session.correct(), 1);
    assert_eq!(session.errors(), 1);
    assert_eq!(session.phase(), Phase::Prompt);
    assert_eq!(session.target(), "extraordinary");
    assert_eq!(session.visible_words(), list(&["extraordinary"]));
}

#[test]
fn endless_started_from_the_sample_list() {
    let game = game(Mode::Endless, sample(), PLAIN, None);
    let mut session = Session::start(&game).unwrap();
    assert_eq!(session.mode(), Mode::Endless);
    assert_eq!(session.phase(), Phase::Fetch);
    assert!(session.advance(&game.word_sets));
    let target = session.target().to_string();
    assert!(target == "cat" || target == "fish");
    assert_eq!(session.submit(false, &line(&target), 0), Outcome::Match);
    assert_eq!(session.correct(), 1);
    assert!(!session.is_over());
}

#[test]
fn a_session_is_over_in_its_last_phases_only() {
    let game = game(Mode::Race, fixed(), PLAIN, Some(vec![1]));
    let fresh = Session::new(Mode::Race, PLAIN, Plan { goal: Some(1), range: FULL });
    assert_eq!(fresh.phase(), Phase::Seeding);
    assert!(!fresh.is_over());

    let mut won = Session::start(&game).unwrap();
    assert!(!won.is_over());
    assert!(won.advance(&game.word_sets));
    assert!(!won.is_over());
    won.submit(false, "four\n", 5);
    assert_eq!(won.phase(), Phase::Finished);
    assert!(won.is_over());

    let mut left = Session::start(&game).unwrap();
    assert!(left.advance(&game.word_sets));
    left.submit(true, "", 5);
    assert_eq!(left.phase(), Phase::Quit);
    assert!(left.is_over());

    let mut stuck = Session::start(&game).unwrap();
    assert!(!stuck.advance(&parse_to_sets(Vec::new())));
    assert_eq!(stuck.phase(), Phase::Exhausted);
    assert!(stuck.is_over());
}

#[test]
fn race_of_three_words() {
    let game = game(Mode::Race, sample(), PLAIN, Some(vec![3]));
    let mut session = Session::start(&game).unwrap();
    for done in 1..=3u32 {
        assert_eq!(session.phase(), Phase::Fetch);
        assert!(session.advance(&game.word_sets));
        let target = session.target().to_string();
        assert_eq!(session.submit(false, &line(&target), 700), Outcome::Match);
        assert_eq!(session.correct(), done);
    }
    assert_eq!(session.phase(), Phase::Finished);
    assert_eq!(session.errors(), 0);
    let score = session.finish(4_250).unwrap();
    assert_eq!(score, Score { correct: 3, errors: 0, time: Some(4_250), wpm: None });
    assert_eq!(
        session.finish(0),
        Some(Score { correct: 3, errors: 0, time: Some(0), wpm: None })
    );
}

#[test]
fn time_attack_credits_the_word_that_ran_over() {
    let game = game(Mode::TimeAttack, list(&["cat"]), PLAIN, None);
    let mut session = Session::start(&game).unwrap();
    assert!(session.advance(&game.word_sets));
    assert_eq!(session.target(), "cat");
    assert_eq!(session.budget_ms(), 10_000);
    assert_eq!(session.submit(false, "cat\n", 11_000), Outcome::Match);
    assert_eq!(session.correct(), 1);
    assert_eq!(session.last_ms(), 11_000);
    assert_eq!(session.phase(), Phase::TimedOut);
    assert!(session.can_finish());
    // 12 * 3 characters / 11 seconds
    assert_eq!(
        session.finish(0),
        Some(Score { correct: 1, errors: 0, time: None, wpm: Some(3) })
    );
}

#[test]
fn time_attack_runs_out_exactly_at_the_budget() {
    let game = game(Mode::TimeAttack, list(&["cat"]), PLAIN, None);
    let mut session = Session::start(&game).unwrap();
    assert!(session.advance(&game.word_sets));
    session.submit(false, "cat\n", 9_999);
    assert_eq!(session.phase(), Phase::Fetch);
    assert!(session.advance(&game.word_sets));
    session.submit(false, "cat\n", 10_000);
    assert_eq!(session.phase(), Phase::TimedOut);
    // 12 * 6 characters / round(19.999 s)
    assert_eq!(
        session.finish(0),
        Some(Score { correct: 2, errors: 0, time: None, wpm: Some(3) })
    );
}

#[test]
fn time_attack_checks_the_clock_only_on_a_correct_word() {
    let game = game(Mode::TimeAttack, list(&["cat"]), PLAIN, None);
    let mut session = Session::start(&game).unwrap();
    assert!(session.advance(&game.word_sets));
    assert_eq!(session.submit(false, "cot\n", 60_000), Outcome::Mismatch);
    assert_eq!(session.phase(), Phase::Prompt);
    assert_eq!(session.submit(false, "\n", 70_000), Outcome::Empty);
    assert_eq!(session.phase(), Phase::Prompt);
    assert_eq!(session.errors(), 1);
    assert_eq!(session.correct(), 0);
}

#[test]
fn time_attack_never_skips_a_wrong_word() {
    let options = Modifiers { skip_err: true, ..PLAIN };
    let game = game(Mode::TimeAttack, list(&["cat"]), options, None);
    let mut session = Session::start(&game).unwrap();
    assert!(session.advance(&game.word_sets));
    assert_eq!(session.submit(false, "dog\n", 100), Outcome::Mismatch);
    assert_eq!(session.phase(), Phase::Prompt);
    assert_eq!(session.errors(), 1);
}

#[test]
fn time_attack_budget_follows_the_words_queued() {
    let game = game(Mode::TimeAttack, fixed(), PLAIN, None);
    let mut session = Session::start(&game).unwrap();
    // one word is queued at the start; the n-th fetch sees n words queued
    let mut budgets = Vec::new();
    for _ in 0..62 {
        assert!(session.advance(&game.word_sets));
        budgets.push(session.budget_ms());
        let target = session.target().to_string();
        assert_eq!(session.submit(false, &line(&target), 10), Outcome::Match);
    }
    for (i, budget) in budgets.iter().enumerate() {
        let queued = i + 1;
        let want = if queued <= 20 {
            10_000
        } else if queued <= 40 {
            8_000
        } else if queued <= 60 {
            6_000
        } else {
            5_000
        };
        assert_eq!(*budget, want);
    }
    assert_eq!(session.correct(), 62);
}

#[test]
fn time_attack_words_grow_with_the_tier() {
    let game = game(Mode::TimeAttack, fixed(), PLAIN, None);
    let mut session = Session::start(&game).unwrap();
    let mut targets = Vec::new();
    for _ in 0..63 {
        assert!(session.advance(&game.word_sets));
        targets.push(session.target().to_string());
        let target = session.target().to_string();
        session.submit(false, &line(&target), 10);
    }
    // the seed and the words queued while at most 20 were queued are of tier 1
    assert!(targets[..21].iter().all(|w| w == "four"));
    assert!(targets[21..41].iter().all(|w| w == "sixsix"));
    assert!(targets[41..61].iter().all(|w| w == "ninechars"));
    assert!(targets[61..].iter().all(|w| w == "twelve_chars"));
}

#[test]
fn time_attack_accumulates_a_second_per_correct_word() {
    let options = Modifiers { accumulate: true, ..PLAIN };
    let game = game(Mode::TimeAttack, list(&["cat"]), options, None);
    let mut session = Session::start(&game).unwrap();
    for done in 0..5u64 {
        assert!(session.advance(&game.word_sets));
        assert_eq!(session.budget_ms(), 10_000 + 1_000 * done);
        session.submit(false, "cat\n", 2_000);
    }
    assert!(session.advance(&game.word_sets));
    // 15 s are allowed now
    session.submit(false, "cat\n", 14_999);
    assert_eq!(session.phase(), Phase::Fetch);
    session.advance(&game.word_sets);
    assert_eq!(session.budget_ms(), 16_000);
    session.submit(false, "cat\n", 16_000);
    assert_eq!(session.phase(), Phase::TimedOut);
}

#[test]
fn time_attack_without_accumulate_keeps_its_budget() {
    let game = game(Mode::TimeAttack, list(&["cat"]), PLAIN, None);
    let mut session = Session::start(&game).unwrap();
    for _ in 0..5 {
        assert!(session.advance(&game.word_sets));
        assert_eq!(session.budget_ms(), 10_000);
        session.submit(false, "cat\n", 2_000);
    }
}

#[test]
fn time_attack_rate_counts_characters_of_correct_words() {
    let game = game(Mode::TimeAttack, list(&["horse"]), PLAIN, None);
    let mut session = Session::start(&game).unwrap();
    for _ in 0..4 {
        assert!(session.advance(&game.word_sets));
        session.submit(false, "hoarse\n", 1_000);
        session.submit(false, "horse\n", 3_000);
    }
    assert!(session.advance(&game.word_sets));
    assert_eq!(session.submit(false, "\t", 500), Outcome::Quit);
    assert_eq!(session.phase(), Phase::Quit);
    // 12 * 20 characters / 12 seconds
    assert_eq!(
        session.finish(0),
        Some(Score { correct: 4, errors: 4, time: None, wpm: Some(20) })
    );
}

#[test]
fn time_attack_rate_needs_a_measurable_time() {
    let game = game(Mode::TimeAttack, list(&["cat"]), PLAIN, None);
    let mut session = Session::start(&game).unwrap();
    assert!(session.can_finish());
    assert!(session.advance(&game.word_sets));
    session.submit(false, "cat\n", 499);
    assert!(!session.can_finish());
    assert!(session.advance(&game.word_sets));
    session.submit(false, "cat\n", 1);
    assert!(session.can_finish());
    assert_eq!(
        session.finish(0),
        Some(Score { correct: 2, errors: 0, time: None, wpm: Some(72) })
    );
}

#[test]
fn no_correct_word_no_score() {
    for mode in [Mode::TimeAttack, Mode::Endless] {
        let game = game(mode, sample(), PLAIN, None);
        let mut session = Session::start(&game).unwrap();
        assert_eq!(session.finish(5_000), None);
        assert!(session.advance(&game.word_sets));
        assert_eq!(session.submit(false, "nonsense\n", 100), Outcome::Mismatch);
        assert_eq!(session.submit(true, "", 200), Outcome::Quit);
        assert_eq!(session.phase(), Phase::Quit);
        assert_eq!(session.errors(), 1);
        assert_eq!(session.finish(5_000), None);
    }
}

#[test]
fn endless_reports_counts_only() {
    let game = game(Mode::Endless, fixed(), PLAIN, None);
    let mut session = Session::start(&game).unwrap();
    for _ in 0..3 {
        assert!(session.advance(&game.word_sets));
        let target = session.target().to_string();
        session.submit(false, "wrong\n", 5);
        session.submit(false, &line(&target), 5);
    }
    assert!(session.advance(&game.word_sets));
    session.submit(false, "\t\n", 5);
    assert_eq!(
        session.finish(99_000),
        Some(Score { correct: 3, errors: 3, time: None, wpm: None })
    );
}

#[test]
fn endless_picks_the_tier_from_the_word_consumed() {
    let game = game(Mode::Endless, fixed(), PLAIN, None);
    let mut session = Session::start(&game).unwrap();
    // "four" (4 -> tier 1), then again "four"
    assert!(session.advance(&game.word_sets));
    assert_eq!(session.target(), "four");
    session.submit(false, "four\n", 0);
    assert!(session.advance(&game.word_sets));
    assert_eq!(session.target(), "four");
    let mut race = Session::new(Mode::Endless, PLAIN, Plan { goal: None, range: FULL });
    race.enqueue("sixsix".to_string());
    // "sixsix" (6 -> tier 3) queues "ninechars" (9 -> tier 2), which queues "sixsix"
    assert!(race.advance(&game.word_sets));
    assert_eq!(race.target(), "sixsix");
    race.submit(false, "sixsix\n", 0);
    assert!(race.advance(&game.word_sets));
    assert_eq!(race.target(), "ninechars");
    race.submit(false, "ninechars\n", 0);
    assert!(race.advance(&game.word_sets));
    assert_eq!(race.target(), "sixsix");
}

#[test]
fn endless_ignores_race_arguments() {
    let game = game(Mode::Endless, fixed(), PLAIN, Some(vec![1, 4, 2]));
    let mut session = Session::start(&game).unwrap();
    assert!(session.advance(&game.word_sets));
    assert_eq!(session.target(), "four");
    session.submit(false, "four\n", 0);
    assert_eq!(session.phase(), Phase::Fetch);
}

#[test]
fn skipping_moves_past_a_wrong_word() {
    let options = Modifiers { skip_err: true, ..PLAIN };
    for mode in [Mode::Endless, Mode::Race] {
        let game = game(mode, sample(), options, None);
        let mut session = Session::start(&game).unwrap();
        assert!(session.advance(&game.word_sets));
        assert_eq!(session.submit(false, "zzz\n", 10), Outcome::Mismatch);
        assert_eq!(session.errors(), 1);
        assert_eq!(session.correct(), 0);
        assert_eq!(session.phase(), Phase::Fetch);
    }
}

#[test]
fn blank_line_changes_nothing() {
    let game = game(Mode::Race, sample(), PLAIN, Some(vec![2]));
    let mut session = Session::start(&game).unwrap();
    assert!(session.advance(&game.word_sets));
    let target = session.target().to_string();
    assert_eq!(session.submit(false, "\n", 10), Outcome::Empty);
    assert_eq!(session.submit(false, "\r\n", 10), Outcome::Empty);
    assert_eq!(session.phase(), Phase::Prompt);
    assert_eq!(session.target(), target);
    assert_eq!(session.correct(), 0);
    assert_eq!(session.errors(), 0);
}

#[test]
fn race_left_early_has_no_score() {
    let game = game(Mode::Race, sample(), PLAIN, Some(vec![3]));
    let mut session = Session::start(&game).unwrap();
    for _ in 0..2 {
        assert!(session.advance(&game.word_sets));
        let target = session.target().to_string();
        session.submit(false, &line(&target), 10);
    }
    assert!(session.advance(&game.word_sets));
    assert_eq!(session.submit(true, "", 10), Outcome::Quit);
    assert_eq!(session.correct(), 2);
    assert_eq!(session.finish(3_000), None);
}

#[test]
fn race_without_a_goal_always_has_a_score() {
    let game = game(Mode::Race, sample(), PLAIN, None);
    let mut session = Session::start(&game).unwrap();
    assert!(session.advance(&game.word_sets));
    session.submit(false, "\t", 10);
    assert_eq!(
        session.finish(1_500),
        Some(Score { correct: 0, errors: 0, time: Some(1_500), wpm: None })
    );
}

#[test]
fn race_with_goal_zero() {
    let game = game(Mode::Race, sample(), PLAIN, Some(vec![0]));
    let mut session = Session::start(&game).unwrap();
    assert_eq!(
        session.finish(10),
        Some(Score { correct: 0, errors: 0, time: Some(10), wpm: None })
    );
    assert!(session.advance(&game.word_sets));
    let target = session.target().to_string();
    session.submit(false, &line(&target), 10);
    assert_eq!(session.phase(), Phase::Fetch);
    assert_eq!(session.finish(10), None);
}

#[test]
fn race_counts_errors() {
    let game = game(Mode::Race, fixed(), PLAIN, Some(vec![2, 2]));
    let mut session = Session::start(&game).unwrap();
    assert!(session.advance(&game.word_sets));
    assert_eq!(session.target(), "sixsix");
    session.submit(false, "sixsex\n", 10);
    session.submit(false, "sixsix\n", 10);
    assert!(session.advance(&game.word_sets));
    assert_eq!(session.target(), "sixsix");
    session.submit(false, "sixsix\n", 10);
    assert_eq!(session.phase(), Phase::Finished);
    assert_eq!(
        session.finish(2_000),
        Some(Score { correct: 2, errors: 1, time: Some(2_000), wpm: None })
    );
}

#[test]
fn race_draws_within_its_range() {
    let game = game(Mode::Race, fixed(), PLAIN, Some(vec![50, 2, 3]));
    let mut session = Session::start(&game).unwrap();
    for _ in 0..20 {
        assert!(session.advance(&game.word_sets));
        let target = session.target().to_string();
        assert!(target == "sixsix" || target == "ninechars");
        session.submit(false, &line(&target), 1);
    }
}

#[test]
fn start_refuses_bad_race_arguments() {
    let bad_count = game(Mode::Race, sample(), PLAIN, Some(vec![]));
    assert_eq!(
        Session::start(&bad_count).unwrap_err(),
        StartError::Config(ConfigError::BadCount)
    );
    let too_many = game(Mode::Race, sample(), PLAIN, Some(vec![1, 1, 2, 3]));
    assert_eq!(
        Session::start(&too_many).unwrap_err(),
        StartError::Config(ConfigError::BadCount)
    );
    let bad_range = game(Mode::Race, sample(), PLAIN, Some(vec![5, 3, 1]));
    assert_eq!(
        Session::start(&bad_range).unwrap_err(),
        StartError::Config(ConfigError::BadRange)
    );
}

#[test]
fn start_needs_a_word_to_seed_with() {
    for mode in [Mode::TimeAttack, Mode::Endless, Mode::Race] {
        let empty = game(mode, Vec::new(), PLAIN, None);
        assert_eq!(Session::start(&empty).unwrap_err(), StartError::EmptyTier(1));
    }
    let high_only = game(Mode::Race, list(&["cat"]), PLAIN, Some(vec![5, 2]));
    assert_eq!(Session::start(&high_only).unwrap_err(), StartError::EmptyTier(2));
    let outside = game(Mode::Race, sample(), PLAIN, Some(vec![5, 7, 9]));
    assert_eq!(Session::start(&outside).unwrap_err(), StartError::EmptyTier(7));
}

#[test]
fn an_empty_tier_ends_the_session_without_a_score() {
    // "cat" has three characters, so the next word is of tier 4, which is empty
    let game = game(Mode::Endless, list(&["cat"]), PLAIN, None);
    let mut session = Session::start(&game).unwrap();
    assert!(!session.advance(&game.word_sets));
    assert_eq!(session.phase(), Phase::Exhausted);
    assert_eq!(session.finish(100), None);

    // "four" leads to tier 1 again, until a bank without it is handed in
    let game = game_with_four();
    let mut session = Session::start(&game).unwrap();
    assert!(session.advance(&game.word_sets));
    session.submit(false, "four\n", 10);
    assert_eq!(session.correct(), 1);
    let bare = parse_to_sets(Vec::new());
    assert!(!session.advance(&bare));
    assert_eq!(session.phase(), Phase::Exhausted);
    assert_eq!(session.correct(), 1);
    assert_eq!(session.finish(100), None);
}

fn game_with_four() -> Game {
    game(Mode::Endless, list(&["four"]), PLAIN, None)
}

#[test]
fn nine_words_stay_queued_when_the_next_words_are_shown() {
    let options = Modifiers { multiple: true, ..PLAIN };
    let game = game(Mode::Endless, fixed(), options, None);
    let mut session = Session::start(&game).unwrap();
    assert!(session.advance(&game.word_sets));
    // seeded: four, four, ...; "four" always leads to tier 1
    assert_eq!(session.visible_words(), vec!["four".to_string(); 9]);
    session.submit(false, "four\n", 10);
    assert!(session.advance(&game.word_sets));
    assert_eq!(session.visible_words().len(), 9);
}

#[test]
fn shown_words_come_in_queue_order() {
    let options = Modifiers { multiple: true, ..PLAIN };
    let game = game(Mode::Endless, fixed(), options, None);
    let plan = Plan { goal: None, range: FULL };
    let mut session = Session::new(Mode::Endless, options, plan);
    let seeds = ["w1", "w2", "w3", "w4", "w5", "w6", "w7", "w8", "w9"];
    for (i, seed) in seeds.iter().enumerate() {
        assert_eq!(session.phase(), Phase::Seeding);
        assert_eq!(session.seed_tier(), if i == 0 { 1 } else { 3 });
        session.enqueue(seed.to_string());
    }
    assert_eq!(session.phase(), Phase::Fetch);
    assert_eq!(session.fetch_tier(), 3);
    session.advance_with("w10".to_string());
    assert_eq!(session.target(), "w1");
    assert_eq!(session.visible_words(), list(&seeds));
    session.submit(false, "w1\n", 0);
    session.advance_with("w11".to_string());
    assert_eq!(session.target(), "w2");
    assert_eq!(
        session.visible_words(),
        list(&["w2", "w3", "w4", "w5", "w6", "w7", "w8", "w9", "w10"])
    );
    let _ = game;
}

#[test]
fn seeding_draws_follow_the_queued_word() {
    let options = Modifiers { multiple: true, ..PLAIN };
    // within tiers 1 and 2, "cat" (3 characters) leads to tier 2 and
    // "sixsix" (6 characters) back to tier 1
    let game = game(Mode::Race, list(&["cat", "sixsix"]), options, Some(vec![4, 1, 2]));
    let mut session = Session::start(&game).unwrap();
    assert!(session.advance(&game.word_sets));
    assert_eq!(
        session.visible_words(),
        list(&["cat", "sixsix", "cat", "sixsix", "cat", "sixsix", "cat", "sixsix", "cat"])
    );
    // the word consumed, "cat", put a word of tier 2 at the back
    session.submit(false, "cat\n", 0);
    assert!(session.advance(&game.word_sets));
    assert_eq!(
        session.visible_words(),
        list(&["sixsix", "cat", "sixsix", "cat", "sixsix", "cat", "sixsix", "cat", "sixsix"])
    );
    session.submit(false, "sixsix\n", 0);
    assert!(session.advance(&game.word_sets));
    assert_eq!(
        session.visible_words(),
        list(&["cat", "sixsix", "cat", "sixsix", "cat", "sixsix", "cat", "sixsix", "cat"])
    );
}

#[test]
fn time_attack_seeds_nine_words_of_the_first_tier() {
    let options = Modifiers { multiple: true, ..PLAIN };
    let game = game(Mode::TimeAttack, fixed(), options, None);
    let mut session = Session::start(&game).unwrap();
    assert!(session.advance(&game.word_sets));
    assert_eq!(session.visible_words(), vec!["four".to_string(); 9]);
    // nine words were queued before the first fetch
    assert_eq!(session.budget_ms(), 10_000);
    for _ in 0..11 {
        session.submit(false, "four\n", 1);
        assert!(session.advance(&game.word_sets));
    }
    // the twelfth fetch sees 20 words queued, the thirteenth 21
    assert_eq!(session.budget_ms(), 10_000);
    session.submit(false, "four\n", 1);
    assert!(session.advance(&game.word_sets));
    assert_eq!(session.budget_ms(), 8_000);
}

#[test]
fn counters_have_room_at_the_start() {
    let game = game(Mode::TimeAttack, sample(), PLAIN, None);
    let mut session = Session::start(&game).unwrap();
    assert!(session.has_room_to_queue());
    assert!(session.advance(&game.word_sets));
    assert!(session.has_room_to_apply(1_000));
    assert!(session.has_room_to_apply(u64::MAX));
    let target = session.target().to_string();
    session.submit(false, &line(&target), 1);
    assert!(session.advance(&game.word_sets));
    assert!(!session.has_room_to_apply(u64::MAX));
}
