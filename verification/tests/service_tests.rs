//! Service and interface behaviour on an in-memory store: the idempotency
//! guard, review-ahead selection, the sticky next puzzle, the rating guard
//! and the statistics.

use better_tactics::api::tactics::{random_puzzle, review, ReviewRequest, SkipRequest};
use better_tactics::api::user::{reset_rating, review_forecast, review_score_histogram};
use better_tactics::app::{AppConfig, AppState, UiConfig};
use better_tactics::db::{PuzzleDatabase, Puzzle};
use better_tactics::rating::{Rating, DEFAULT_VOLATILITY_BITS};
use better_tactics::services::tactics_service::TacticsService;
use better_tactics::services::user_service::UserService;
use better_tactics::srs::{Card, Difficulty, ReviewOrder, SrsConfig};
use better_tactics::time::Timestamp;

fn config() -> AppConfig {
    AppConfig {
        srs: SrsConfig {
            default_ease: 250,
            minimum_ease: 130,
            easy_bonus: 130,
            day_end_seconds: 4 * 3600,
            review_order: ReviewOrder::DueTime,
        },
        ui: UiConfig { initial_move_delay: 500, subsequent_move_delay: 250 },
    }
}

fn ts(utc_seconds: i64) -> Timestamp {
    Timestamp::new(utc_seconds, 0)
}

fn puzzle(id: &str, rating: i64) -> Puzzle {
    Puzzle {
        puzzle_id: id.to_owned(),
        fen: "8/8/8/8/8/8/8/8 w - - 0 1".to_owned(),
        moves: "e2e4".to_owned(),
        rating,
        rating_deviation: 75,
        popularity: 90,
        number_of_plays: 1000,
        themes: vec!["fork".to_owned()],
        game_url: "https://example.invalid/game".to_owned(),
        opening_tags: vec![],
    }
}

fn state_with_puzzles() -> AppState {
    let cfg = config();
    let mut db = PuzzleDatabase::new("test", "local", cfg.srs);
    db.add_puzzles(&vec![puzzle("p1", 700), puzzle("p2", 1500), puzzle("p3", 2100)]);
    AppState::new(cfg, db)
}

#[test]
fn review_count_mismatch_is_idempotent() {
    let mut state = state_with_puzzles();
    let mut card = Card::new("p1", ts(100), state.app_config.srs);
    card.review_count = 7;
    state.db.update_or_create_card(&card);
    let rating_before = state.db.user.rating;

    let request = ReviewRequest { id: "p1".to_owned(), difficulty: 2, review_count: 6 };
    let rated = Rating { rating: 520, deviation: 240, volatility: DEFAULT_VOLATILITY_BITS };
    let outcome = review(&mut state, &request, ts(1_000), rated);

    assert!(outcome.is_ok());
    let stored = state.db.get_card_by_id(&"p1".to_owned()).unwrap();
    assert_eq!(stored.review_count, 7);
    assert_eq!(stored.interval, card.interval);
    assert_eq!(state.db.reviews.len(), 0);
    assert_eq!(state.db.user.rating, rating_before);
}

#[test]
fn review_applies_grade_rating_and_audit_row() {
    let mut state = state_with_puzzles();
    let request = ReviewRequest { id: "p1".to_owned(), difficulty: 2, review_count: 0 };
    let rated = Rating { rating: 507, deviation: 180, volatility: DEFAULT_VOLATILITY_BITS };
    let outcome = review(&mut state, &request, ts(1_000), rated);

    assert!(outcome.is_ok());
    let stored = state.db.get_card_by_id(&"p1".to_owned()).unwrap();
    assert_eq!(stored.review_count, 1);
    assert_eq!(stored.interval, 24 * 3600);
    assert_eq!(stored.learning_stage, 1);
    assert_eq!(stored.due.utc_seconds, 1_000 + 24 * 3600);
    assert_eq!(state.db.user.rating, rated);
    assert_eq!(state.db.reviews.len(), 1);
    assert_eq!(state.db.reviews[0].puzzle_id, "p1");
    assert_eq!(state.db.reviews[0].difficulty, Difficulty::Good);
    assert_eq!(state.db.reviews[0].user_rating, Some(507));
}

#[test]
fn good_that_would_lower_the_rating_is_discarded() {
    let mut state = state_with_puzzles();
    let request = ReviewRequest { id: "p1".to_owned(), difficulty: 2, review_count: 0 };
    let before = state.db.user.rating;
    let rated = Rating { rating: before.rating - 5, deviation: 180, volatility: 7 };
    review(&mut state, &request, ts(1_000), rated).unwrap();

    assert_eq!(state.db.user.rating, before);
    // The audit row carries the rating that was actually persisted.
    assert_eq!(state.db.reviews[0].user_rating, Some(before.rating));

    // The same outcome under an again grade is taken as computed.
    let request = ReviewRequest { id: "p2".to_owned(), difficulty: 0, review_count: 0 };
    review(&mut state, &request, ts(2_000), rated).unwrap();
    assert_eq!(state.db.user.rating, rated);
}

#[test]
fn review_rejects_bad_difficulty_and_unknown_puzzle() {
    let mut state = state_with_puzzles();
    let rated = Rating { rating: 520, deviation: 240, volatility: DEFAULT_VOLATILITY_BITS };

    let request = ReviewRequest { id: "p1".to_owned(), difficulty: 9, review_count: 0 };
    assert!(review(&mut state, &request, ts(1_000), rated).is_err());

    let request = ReviewRequest { id: "nope".to_owned(), difficulty: 2, review_count: 0 };
    assert!(review(&mut state, &request, ts(1_000), rated).is_err());
    assert_eq!(state.db.reviews.len(), 0);
}

#[test]
fn review_ahead_skips_cards_still_in_learning() {
    let mut state = state_with_puzzles();
    let now = ts(1_000_000);

    // A learning card due in half an hour and a mature card due in one
    // hour: neither is due at `now`, both fall before the day boundary.
    let mut learning = Card::new("p1", ts(now.utc_seconds + 1800), state.app_config.srs);
    learning.interval = 600;
    state.db.update_or_create_card(&learning);
    let mut mature = Card::new("p2", ts(now.utc_seconds + 3600), state.app_config.srs);
    mature.interval = 7 * 24 * 3600;
    state.db.update_or_create_card(&mature);

    // Only the mature card may be reviewed ahead, even though the learning
    // card is due sooner.
    let tactics = TacticsService::new(state.app_config);
    let next = tactics.get_next_review(&state.db, now).unwrap();
    let (p, _) = next.expect("the mature card can be reviewed ahead");
    assert_eq!(p.puzzle_id, "p2");

    // Once the learning card is due outright it wins on due time.
    let later = ts(now.utc_seconds + 1800 + 1);
    let (p, c) = tactics.get_next_review(&state.db, later).unwrap().unwrap();
    assert_eq!(p.puzzle_id, "p1");
    assert_eq!(c.interval, 600);
}

#[test]
fn sticky_next_puzzle_protocol() {
    let mut state = state_with_puzzles();
    let now = ts(1_000_000);

    // Pin the sticky next puzzle to a never-reviewed puzzle.
    let user_id = "local".to_owned();
    state
        .user_service
        .set_user_next_puzzle(&mut state.db, &user_id, Some(&"p2".to_owned()))
        .unwrap();

    // It comes back unchanged, with a fresh card, and stays stored.
    let resp = random_puzzle(&mut state, 0, 3000, now).unwrap();
    assert_eq!(resp.puzzle.unwrap().puzzle_id, "p2");
    assert_eq!(resp.card.unwrap().review_count, 0);
    assert!(resp.due_today);
    assert_eq!(state.db.user.next_puzzle, Some("p2".to_owned()));

    // Reviewing it clears the sticky pointer.
    let request = ReviewRequest { id: "p2".to_owned(), difficulty: 2, review_count: 0 };
    let rated = Rating { rating: 520, deviation: 240, volatility: DEFAULT_VOLATILITY_BITS };
    review(&mut state, &request, now, rated).unwrap();
    assert_eq!(state.db.user.next_puzzle, None);

    // The next sample is stored as the new sticky next puzzle.
    let resp = random_puzzle(&mut state, 0, 3000, now).unwrap();
    let fresh = resp.puzzle.unwrap().puzzle_id;
    assert_eq!(state.db.user.next_puzzle, Some(fresh));
}

#[test]
fn skip_clears_the_sticky_pointer_and_records_the_skip() {
    let mut state = state_with_puzzles();
    let user_id = "local".to_owned();
    state
        .user_service
        .set_user_next_puzzle(&mut state.db, &user_id, Some(&"p3".to_owned()))
        .unwrap();

    // A skip naming some other puzzle changes nothing.
    let stray = SkipRequest { id: "p1".to_owned(), difficulty: 0, update_rating: false };
    let unchanged = state.db.user.rating;
    better_tactics::api::tactics::skip_next(&mut state, &stray, ts(500), unchanged).unwrap();
    assert_eq!(state.db.user.next_puzzle, Some("p3".to_owned()));
    assert_eq!(state.db.skipped_puzzles.len(), 0);

    // Skipping the sticky puzzle records it and clears the pointer.
    let request = SkipRequest { id: "p3".to_owned(), difficulty: 0, update_rating: true };
    let rated = Rating { rating: 495, deviation: 240, volatility: DEFAULT_VOLATILITY_BITS };
    better_tactics::api::tactics::skip_next(&mut state, &request, ts(600), rated).unwrap();
    assert_eq!(state.db.user.next_puzzle, None);
    assert_eq!(state.db.skipped_puzzles.len(), 1);
    assert_eq!(state.db.skipped_puzzles[0].puzzle_id, "p3");
    // An again grade takes the computed rating as-is.
    assert_eq!(state.db.user.rating, rated);
}

#[test]
fn stats_counts_and_next_due() {
    let mut state = state_with_puzzles();
    let now = ts(1_000_000);
    let users = UserService::new();
    let user_id = "local".to_owned();

    // No cards: nothing due, no next review.
    let stats = users.get_user_stats(&state.db, &user_id, now).unwrap();
    assert_eq!(stats.card_count, 0);
    assert_eq!(stats.review_count, 0);
    assert_eq!(stats.reviews_due_now, 0);
    assert_eq!(stats.reviews_due_today, 0);
    assert_eq!(stats.next_review_due, None);

    // A mature card due in an hour counts as due now (review-ahead) and
    // makes the next review due immediately.
    let mut mature = Card::new("p2", ts(now.utc_seconds + 3600), state.app_config.srs);
    mature.interval = 7 * 24 * 3600;
    mature.review_count = 5;
    state.db.update_or_create_card(&mature);
    let stats = users.get_user_stats(&state.db, &user_id, now).unwrap();
    assert_eq!(stats.card_count, 1);
    assert_eq!(stats.review_count, 5);
    assert_eq!(stats.reviews_due_now, 1);
    assert_eq!(stats.reviews_due_today, 1);
    assert_eq!(stats.next_review_due, Some(now));

    // Only a learning card due later today: due today but not now, and the
    // next due time is that card's due time.
    let mut fresh = Card::new("p1", ts(now.utc_seconds + 3600), state.app_config.srs);
    fresh.review_count = 1;
    state.db.update_or_create_card(&fresh);
    state.db.cards.retain(|c| c.id == "p1");
    let stats = users.get_user_stats(&state.db, &user_id, now).unwrap();
    assert_eq!(stats.card_count, 1);
    assert_eq!(stats.reviews_due_now, 0);
    assert_eq!(stats.reviews_due_today, 1);
    assert_eq!(stats.next_review_due, Some(ts(now.utc_seconds + 3600)));

    // Only the local user has statistics.
    assert!(users.get_user_stats(&state.db, &"other".to_owned(), now).is_err());
}

#[test]
fn forecast_and_histogram_validate_their_parameters() {
    let mut state = state_with_puzzles();
    let now = ts(1_000_000);
    let day_end = state.app_config.srs.day_end_datetime(now);
    let mut card = Card::new("p2", ts(day_end.utc_seconds + 3600), state.app_config.srs);
    card.interval = 7 * 24 * 3600;
    state.db.update_or_create_card(&card);

    let forecast = review_forecast(&state, 3, now).unwrap();
    assert_eq!(forecast, vec![1, 0, 0]);
    assert!(review_forecast(&state, 31, now).is_err());

    let request = ReviewRequest { id: "p1".to_owned(), difficulty: 3, review_count: 0 };
    let rated = Rating { rating: 520, deviation: 240, volatility: DEFAULT_VOLATILITY_BITS };
    review(&mut state, &request, now, rated).unwrap();

    let bars = review_score_histogram(&state, 50).unwrap();
    assert_eq!(bars.len(), 1);
    assert_eq!(bars[0].puzzle_rating_min, 700);
    assert_eq!(bars[0].puzzle_rating_max, 750);
    assert_eq!(bars[0].difficulty, Difficulty::Easy);
    assert_eq!(bars[0].review_count, 1);
    assert!(review_score_histogram(&state, 49).is_err());
}

#[test]
fn reset_rating_restores_the_default_deviation_and_volatility() {
    let mut state = state_with_puzzles();
    state
        .user_service
        .reset_user_rating(&mut state.db, &"local".to_owned(), 1234, 99, 7)
        .unwrap();
    assert_eq!(state.db.user.rating, Rating { rating: 1234, deviation: 99, volatility: 7 });

    let reply = reset_rating(&mut state, 800).unwrap();
    assert_eq!(reply.description, "OK");
    assert_eq!(
        state.db.user.rating,
        Rating { rating: 800, deviation: 250, volatility: DEFAULT_VOLATILITY_BITS }
    );
}

#[test]
fn rating_history_through_the_service() {
    let mut state = state_with_puzzles();
    let users = UserService::new();
    let user_id = "local".to_owned();
    let rated = Rating { rating: 520, deviation: 240, volatility: DEFAULT_VOLATILITY_BITS };

    let request = ReviewRequest { id: "p1".to_owned(), difficulty: 2, review_count: 0 };
    review(&mut state, &request, ts(10 * 3600), rated).unwrap();

    let now = ts(20 * 3600);
    let history = users.get_rating_history(&state.db, &user_id, now).unwrap();
    assert_eq!(history.len(), 2);
    assert_eq!(history[0], (ts(10 * 3600), 520));
    assert_eq!(history[1], (now, 520));
}
