//! Store behaviour: upserts, counts, due queries, the forecast, the rating
//! history and the review-score histogram.

use better_tactics::db::{PuzzleDatabase, Puzzle, Review};
use better_tactics::srs::{Card, Difficulty, ReviewOrder, SrsConfig};
use better_tactics::time::Timestamp;

fn config() -> SrsConfig {
    SrsConfig {
        default_ease: 250,
        minimum_ease: 130,
        easy_bonus: 130,
        day_end_seconds: 4 * 3600,
        review_order: ReviewOrder::DueTime,
    }
}

fn ts(utc_seconds: i64) -> Timestamp {
    Timestamp::new(utc_seconds, 0)
}

fn puzzle(id: &str, rating: i64) -> Puzzle {
    Puzzle {
        puzzle_id: id.to_owned(),
        fen: "8/8/8/8/8/8/8/8 w - - 0 1".to_owned(),
        moves: "e2e4".to_owned(),
        rating,
        rating_deviation: 75,
        popularity: 90,
        number_of_plays: 1000,
        themes: vec!["fork".to_owned(), "short".to_owned()],
        game_url: "https://example.invalid/game".to_owned(),
        opening_tags: vec![],
    }
}

fn card(db: &PuzzleDatabase, id: &str, due: i64, interval: u64) -> Card {
    let mut c = Card::new(id, ts(due), db.srs_config);
    c.interval = interval;
    c
}

fn store_with_puzzles() -> PuzzleDatabase {
    let mut db = PuzzleDatabase::new("test", "local", config());
    db.add_puzzles(&vec![puzzle("a", 700), puzzle("b", 1500), puzzle("c", 2100)]);
    db
}

#[test]
fn puzzle_corpus_queries() {
    let mut db = store_with_puzzles();
    assert_eq!(db.get_puzzle_count(), 3);
    assert_eq!(db.get_min_puzzle_rating(), 700);
    assert_eq!(db.get_max_puzzle_rating(), 2100);

    let found = db.get_puzzle_by_id(&"b".to_owned()).unwrap();
    assert_eq!(found.rating, 1500);
    assert!(db.get_puzzle_by_id(&"zz".to_owned()).is_none());

    // Upserting an existing id replaces the stored row.
    db.add_puzzles(&vec![puzzle("b", 1600)]);
    assert_eq!(db.get_puzzle_count(), 3);
    assert_eq!(db.get_puzzle_by_id(&"b".to_owned()).unwrap().rating, 1600);

    let in_window = db.get_puzzles_by_rating(1000, 2000, 5);
    assert_eq!(in_window.len(), 1);
    assert_eq!(in_window[0].puzzle_id, "b");
    assert!(db.get_puzzles_by_rating(3000, 4000, 5).is_empty());
}

#[test]
fn card_upsert_and_counts() {
    let mut db = store_with_puzzles();
    assert_eq!(db.get_card_count(), 0);
    assert!(db.get_card_by_id(&"a".to_owned()).is_none());

    let mut c = card(&db, "a", 50, 600);
    c.review_count = 2;
    db.update_or_create_card(&c);
    c.review_count = 3;
    db.update_or_create_card(&c);
    let mut c2 = card(&db, "b", 60, 86_400);
    c2.review_count = 4;
    db.update_or_create_card(&c2);

    assert_eq!(db.get_card_count(), 2);
    assert_eq!(db.get_review_count(), 7);
    assert_eq!(db.get_card_by_id(&"a".to_owned()).unwrap().review_count, 3);
}

#[test]
fn due_counts_exclude_learning_from_review_ahead() {
    let mut db = store_with_puzzles();
    let now = ts(1_000_000);
    let day_end = db.srs_config.day_end_datetime(now);

    // A learning card due later today and a mature card due later today.
    db.update_or_create_card(&card(&db, "a", now.utc_seconds + 100, 600));
    db.update_or_create_card(&card(&db, "b", now.utc_seconds + 200, 7 * 86_400));
    // A mature card due tomorrow.
    db.update_or_create_card(&card(&db, "c", day_end.utc_seconds + 10, 7 * 86_400));

    // Due now: only the mature card may be reviewed ahead.
    assert_eq!(db.reviews_due_by(now, day_end), 1);
    // Due today: both cards before the boundary.
    assert_eq!(db.reviews_due_by(day_end, day_end), 2);
}

#[test]
fn next_review_due_picks_earliest_due() {
    let mut db = store_with_puzzles();
    db.update_or_create_card(&card(&db, "b", 500, 86_400));
    db.update_or_create_card(&card(&db, "a", 300, 86_400));
    // A card whose puzzle is gone from the corpus never surfaces.
    db.update_or_create_card(&card(&db, "c", 100, 86_400));
    let mut orphan = card(&db, "c", 100, 86_400);
    orphan.id = "ghost".to_owned();
    db.update_or_create_card(&orphan);

    let (c, p) = db.get_next_review_due(ts(1_000), None).unwrap();
    assert_eq!(c.id, "c");
    assert_eq!(p.puzzle_id, "c");

    // With an interval floor, only cards past the learning steps count.
    db.update_or_create_card(&card(&db, "a", 10, 600));
    let (c, _) = db.get_next_review_due(ts(1_000), Some(86_400)).unwrap();
    assert_eq!(c.id, "c");

    assert!(db.get_next_review_due(ts(5), None).is_none());
}

#[test]
fn next_review_due_by_puzzle_rating() {
    let mut cfg = config();
    cfg.review_order = ReviewOrder::PuzzleRating;
    let mut db = PuzzleDatabase::new("test", "local", cfg);
    db.add_puzzles(&vec![puzzle("a", 700), puzzle("b", 1500)]);
    db.update_or_create_card(&card(&db, "b", 100, 86_400));
    db.update_or_create_card(&card(&db, "a", 200, 86_400));

    let (_, p) = db.get_next_review_due(ts(1_000), None).unwrap();
    assert_eq!(p.puzzle_id, "a");
    assert_eq!(p.rating, 700);
}

#[test]
fn forecast_buckets_by_day_with_backlog_in_day_zero() {
    let mut db = store_with_puzzles();
    let day_end = ts(2_000_000);

    // Backlog before the boundary, one card in the first day, one card in
    // the third day.
    db.update_or_create_card(&card(&db, "a", day_end.utc_seconds - 5_000, 7 * 86_400));
    db.update_or_create_card(&card(&db, "b", day_end.utc_seconds + 3_600, 7 * 86_400));
    db.update_or_create_card(&card(&db, "c", day_end.utc_seconds + 2 * 86_400 + 60, 7 * 86_400));

    let forecast = db.get_review_forecast(day_end, 4);
    assert_eq!(forecast, vec![2, 0, 1, 0]);
    assert_eq!(db.get_review_forecast(day_end, 0).len(), 0);
}

#[test]
fn rating_history_groups_by_hour_and_keeps_the_maximum() {
    let mut db = store_with_puzzles();
    let user = "local".to_owned();
    let hour = 3_600;

    let entries = [
        (10 * hour + 60, 1510),
        (10 * hour + 1800, 1540),  // same hour, higher snapshot
        (10 * hour + 2400, 1520),  // same hour, lower snapshot
        (12 * hour + 5, 1530),
        (9 * hour + 30, 1500),
    ];
    for (date, snapshot) in entries {
        db.add_review_for_user(Review {
            user_id: user.clone(),
            puzzle_id: "a".to_owned(),
            difficulty: Difficulty::Good,
            date: ts(date),
            user_rating: Some(snapshot),
        });
    }
    // A review of another user and one without a snapshot are ignored.
    db.add_review_for_user(Review {
        user_id: "other".to_owned(),
        puzzle_id: "a".to_owned(),
        difficulty: Difficulty::Good,
        date: ts(11 * hour),
        user_rating: Some(9_999),
    });
    db.add_review_for_user(Review {
        user_id: user.clone(),
        puzzle_id: "a".to_owned(),
        difficulty: Difficulty::Good,
        date: ts(11 * hour),
        user_rating: None,
    });

    let now = ts(20 * hour);
    let history = db.get_user_rating_history(&user, now);
    assert_eq!(history.len(), 4);
    assert_eq!(history[0], (ts(9 * hour + 30), 1500));
    assert_eq!(history[1], (ts(10 * hour + 1800), 1540));
    assert_eq!(history[2], (ts(12 * hour + 5), 1530));
    assert_eq!(history[3], (now, 500));
}

#[test]
fn histogram_counts_by_rating_window_and_grade() {
    let mut db = store_with_puzzles();
    let user = "local".to_owned();
    let add = |db: &mut PuzzleDatabase, pid: &str, difficulty: Difficulty, date: i64| {
        db.add_review_for_user(Review {
            user_id: user.clone(),
            puzzle_id: pid.to_owned(),
            difficulty,
            date: ts(date),
            user_rating: Some(1500),
        });
    };
    add(&mut db, "a", Difficulty::Good, 100);  // rating 700 -> window 700..750
    add(&mut db, "a", Difficulty::Good, 200);
    add(&mut db, "a", Difficulty::Again, 300);
    add(&mut db, "b", Difficulty::Good, 400);  // rating 1500 -> window 1500..1550
    // A review of a puzzle the corpus no longer holds is left out.
    add(&mut db, "ghost", Difficulty::Good, 500);

    let bars = db.get_review_score_history(&user, 50);
    assert_eq!(bars.len(), 3);

    assert_eq!(bars[0].puzzle_rating_min, 700);
    assert_eq!(bars[0].puzzle_rating_max, 750);
    assert_eq!(bars[0].difficulty, Difficulty::Again);
    assert_eq!(bars[0].review_count, 1);

    assert_eq!(bars[1].puzzle_rating_min, 700);
    assert_eq!(bars[1].difficulty, Difficulty::Good);
    assert_eq!(bars[1].review_count, 2);

    assert_eq!(bars[2].puzzle_rating_min, 1500);
    assert_eq!(bars[2].difficulty, Difficulty::Good);
    assert_eq!(bars[2].review_count, 1);
}

#[test]
fn user_and_app_data_round_trip() {
    let mut db = PuzzleDatabase::new("test", "local", config());
    assert!(db.get_user_by_id(&"local".to_owned()).is_some());
    assert!(db.get_user_by_id(&"someone".to_owned()).is_none());

    let mut user = db.get_user_by_id(&"local".to_owned()).unwrap();
    user.next_puzzle = Some("a".to_owned());
    db.update_user(&user);
    assert_eq!(
        db.get_user_by_id(&"local".to_owned()).unwrap().next_puzzle,
        Some("a".to_owned())
    );

    let mut app_data = db.get_app_data(&"test".to_owned()).unwrap();
    assert!(!app_data.lichess_db_imported);
    app_data.lichess_db_imported = true;
    app_data.last_backup_date = Some(ts(123));
    db.set_app_data(&app_data);
    let read_back = db.get_app_data(&"test".to_owned()).unwrap();
    assert!(read_back.lichess_db_imported);
    assert_eq!(read_back.last_backup_date, Some(ts(123)));
    assert!(db.get_app_data(&"prod".to_owned()).is_none());

    db.add_skipped_puzzle(&"local".to_owned(), &"a".to_owned(), ts(55));
    assert_eq!(db.skipped_puzzles.len(), 1);
    assert_eq!(db.skipped_puzzles[0].puzzle_id, "a");
}
