//! Scheduler behaviour on concrete cards.

use better_tactics::rating::{guarded_update, Rating};
use better_tactics::srs::{Card, Difficulty, ReviewOrder, SrsConfig};
use better_tactics::time::Timestamp;

fn config() -> SrsConfig {
    SrsConfig {
        default_ease: 250,
        minimum_ease: 130,
        easy_bonus: 130,
        day_end_seconds: 4 * 3600,
        review_order: ReviewOrder::DueTime,
    }
}

fn ts(utc_seconds: i64) -> Timestamp {
    Timestamp::new(utc_seconds, 0)
}

#[test]
fn new_card_good_good_easy() {
    let cfg = config();
    let mut card = Card::new("p1", ts(1_000_000), cfg);
    assert_eq!(card.interval, 600);
    assert_eq!(card.learning_stage, 0);
    assert_eq!(card.ease, 250);
    assert_eq!(card.review_count, 0);

    card.review(ts(1_000_000), Difficulty::Good);
    assert_eq!(card.interval, 24 * 3600);
    assert_eq!(card.learning_stage, 1);
    assert_eq!(card.ease, 250);
    assert_eq!(card.review_count, 1);
    assert_eq!(card.due.utc_seconds, 1_000_000 + 24 * 3600);

    card.review(ts(1_100_000), Difficulty::Good);
    assert_eq!(card.interval, 60 * 3600);
    assert_eq!(card.learning_stage, 2);
    assert_eq!(card.ease, 250);
    assert_eq!(card.review_count, 2);

    card.review(ts(1_200_000), Difficulty::Easy);
    assert_eq!(card.interval, 702_000);
    assert_eq!(card.ease, 265);
    assert_eq!(card.review_count, 3);
}

#[test]
fn mature_card_fails_then_recovers() {
    let cfg = config();
    let mut card = Card {
        id: "p2".to_owned(),
        due: ts(2_000_000),
        interval: 30 * 24 * 3600,
        review_count: 9,
        ease: 250,
        learning_stage: 2,
        srs_config: cfg,
    };

    card.review(ts(2_000_000), Difficulty::Again);
    assert_eq!(card.interval, 600);
    assert_eq!(card.learning_stage, 0);
    assert_eq!(card.ease, 230);

    card.review(ts(2_001_000), Difficulty::Good);
    assert_eq!(card.interval, 24 * 3600);
    assert_eq!(card.learning_stage, 1);
    assert_eq!(card.ease, 245);

    card.review(ts(2_100_000), Difficulty::Good);
    assert_eq!(card.interval, 211_680);
    assert_eq!(card.learning_stage, 2);
    assert_eq!(card.ease, 250);
}

#[test]
fn next_intervals_are_monotonic() {
    let cfg = config();
    let card = Card {
        id: "p3".to_owned(),
        due: ts(0),
        interval: 5 * 24 * 3600,
        review_count: 4,
        ease: 210,
        learning_stage: 2,
        srs_config: cfg,
    };
    let again = card.next_interval(Difficulty::Again);
    let hard = card.next_interval(Difficulty::Hard);
    let good = card.next_interval(Difficulty::Good);
    let easy = card.next_interval(Difficulty::Easy);
    assert_eq!(again, 600);
    assert_eq!(hard, 5 * 24 * 3600);
    assert_eq!(good, 5 * 24 * 3600 * 210 / 100);
    assert_eq!(easy, 5 * 24 * 3600 * 210 * 130 / 10_000);
    assert!(again <= hard && hard <= good && good <= easy);
}

#[test]
fn again_resets_learning_on_any_card() {
    let cfg = config();
    let mut card = Card {
        id: "p4".to_owned(),
        due: ts(0),
        interval: 100 * 24 * 3600,
        review_count: 40,
        ease: 310,
        learning_stage: 2,
        srs_config: cfg,
    };
    card.review(ts(50), Difficulty::Again);
    assert_eq!(card.learning_stage, 0);
    assert_eq!(card.interval, 600);
}

#[test]
fn easy_graduates_from_learning() {
    let cfg = config();
    let mut card = Card::new("p5", ts(100), cfg);
    card.review(ts(100), Difficulty::Easy);
    assert_eq!(card.learning_stage, 2);
    assert!(card.interval >= 4 * 24 * 3600);
    assert_eq!(card.interval, 4 * 24 * 3600);
}

#[test]
fn good_recovers_depressed_ease_without_passing_default() {
    let cfg = config();
    let mut card = Card {
        id: "p6".to_owned(),
        due: ts(0),
        interval: 86_400,
        review_count: 3,
        ease: 245,
        learning_stage: 2,
        srs_config: cfg,
    };
    card.review(ts(10), Difficulty::Good);
    assert_eq!(card.ease, 250);

    let mut card2 = Card {
        id: "p7".to_owned(),
        due: ts(0),
        interval: 86_400,
        review_count: 3,
        ease: 250,
        learning_stage: 2,
        srs_config: cfg,
    };
    card2.review(ts(10), Difficulty::Good);
    assert_eq!(card2.ease, 250);
}

#[test]
fn interval_capped_under_repeated_easy() {
    let cfg = config();
    let mut card = Card {
        id: "p8".to_owned(),
        due: ts(0),
        interval: 52_179 * 7 * 86_400,
        review_count: 1,
        ease: 250,
        learning_stage: 2,
        srs_config: cfg,
    };
    card.review(ts(10), Difficulty::Easy);
    assert_eq!(card.interval, 52_179 * 7 * 86_400);
    assert!(card.ease >= cfg.minimum_ease);
}

#[test]
fn due_boundaries() {
    let cfg = config();
    let now = ts(1_000_000);
    let day_end = cfg.day_end_datetime(now);
    let mut card = Card::new("p9", Timestamp::new(now.utc_seconds + 1, 0), cfg);
    assert!(card.is_due(now));
    card.due = Timestamp::new(day_end.utc_seconds, 0);
    assert!(card.is_due(now));
    card.due = Timestamp::new(day_end.utc_seconds + 1, 0);
    assert!(!card.is_due(now));
}

#[test]
fn difficulty_codes_round_trip() {
    assert_eq!(Difficulty::from_i64(0).unwrap(), Difficulty::Again);
    assert_eq!(Difficulty::from_i64(1).unwrap(), Difficulty::Hard);
    assert_eq!(Difficulty::from_i64(2).unwrap(), Difficulty::Good);
    assert_eq!(Difficulty::from_i64(3).unwrap(), Difficulty::Easy);
    assert!(Difficulty::from_i64(4).is_err());
    assert!(Difficulty::from_i64(-1).is_err());
    assert_eq!(Difficulty::Good.to_i64(), 2);
}

#[test]
fn review_order_values() {
    assert_eq!(ReviewOrder::possible_values(), "DueTime, PuzzleRating, Random");
}

#[test]
fn good_grade_never_lowers_rating() {
    let prior = Rating { rating: 1500, deviation: 200, volatility: 42 };
    let lower = Rating { rating: 1490, deviation: 190, volatility: 43 };
    let higher = Rating { rating: 1510, deviation: 190, volatility: 43 };

    let kept = guarded_update(Difficulty::Good, prior, lower);
    assert_eq!(kept, prior);

    let taken = guarded_update(Difficulty::Good, prior, higher);
    assert_eq!(taken, higher);

    let again = guarded_update(Difficulty::Again, prior, lower);
    assert_eq!(again, lower);
}
