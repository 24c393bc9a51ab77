//! Application logic to do with the user: the sticky next puzzle, the
//! rating with its guard, and the derived statistics.

use vstd::prelude::*;

use crate::db::card::{
    spec_bar_has_key, spec_bars_sorted, spec_bucket_floor, spec_count_due_by,
    spec_count_forecast_day, spec_count_histogram_bar, spec_due_candidate, spec_histogram_relevant,
    spec_history_entry_ok, spec_history_relevant, spec_hour_bucket, spec_min_interval,
    spec_puzzle_with_id, spec_snapshot, spec_sum_review_counts,
};
use crate::db::{DbV, PuzzleDatabase, UserV};
use crate::rating::{spec_guarded_update, guarded_update, Rating};
use crate::services::ServiceError;
use crate::srs::Difficulty;
use crate::time::Timestamp;

verus! {

/// General statistics about the user's collection.
#[derive(Debug, Copy, Clone)]
pub struct Stats {
    pub card_count: u64,
    pub review_count: u64,
    pub reviews_due_now: u64,
    pub reviews_due_today: u64,
    pub next_review_due: Option<Timestamp>,
}

/// Application logic to do with the user.
pub struct UserService {}

impl UserService {
    pub fn new() -> (r: UserService) {
        UserService {  }
    }

    /// The id of the local user; the trainer schedules for a single learner.
    pub fn local_user_id() -> (r: &'static str)
        ensures
            r@ == "local"@,
    {
        "local"
    }

    /// The user's sticky next puzzle, if the user exists and one is set.
    pub fn get_user_next_puzzle(&self, db: &PuzzleDatabase, user_id: &String) -> (r: Result<
        Option<String>,
        ServiceError,
    >)
        ensures
            r is Ok,
            r matches Ok(o) ==> {
                match o {
                    Some(next) => user_id@ == db@.user.id && db@.user.next_puzzle == Some(
                        next@,
                    ),
                    None => user_id@ != db@.user.id || db@.user.next_puzzle is None,
                }
            },
    {
        match db.get_user_by_id(user_id) {
            Some(user) => Ok(user.next_puzzle),
            None => Ok(None),
        }
    }

    /// Sets or clears the user's sticky next puzzle; asking for a user the
    /// store does not hold is an error and changes nothing.
    pub fn set_user_next_puzzle(
        &self,
        db: &mut PuzzleDatabase,
        user_id: &String,
        next_puzzle: Option<&String>,
    ) -> (r: Result<(), ServiceError>)
        requires
            old(db).inv(),
        ensures
            final(db).inv(),
            r is Ok <==> user_id@ == old(db)@.user.id,
            r is Ok ==> final(db)@.user == (UserV {
                next_puzzle: match next_puzzle {
                    Some(p) => Some(p@),
                    None => None,
                },
                ..old(db)@.user
            }),
            r is Err ==> final(db)@ == old(db)@,
            final(db)@ == (DbV { user: final(db)@.user, ..old(db)@ }),
    {
        match db.get_user_by_id(user_id) {
            Some(mut user) => {
                user.next_puzzle = match next_puzzle {
                    Some(p) => Some(p.clone()),
                    None => None,
                };
                db.update_user(&user);
                Ok(())
            },
            None => Err(
                ServiceError::InternalError("no such user to set the next puzzle for".to_owned()),
            ),
        }
    }

    /// The user's rating triple; asking for a user the store does not hold
    /// is an error.
    pub fn get_user_rating(&self, db: &PuzzleDatabase, user_id: &String) -> (r: Result<
        Rating,
        ServiceError,
    >)
        ensures
            r is Ok <==> user_id@ == db@.user.id,
            r matches Ok(rating) ==> rating == db@.user.rating,
    {
        match db.get_user_by_id(user_id) {
            Some(user) => Ok(user.rating),
            None => Err(ServiceError::InternalError("no such user".to_owned())),
        }
    }

    /// Resets the user's rating triple to the given values.
    pub fn reset_user_rating(
        &self,
        db: &mut PuzzleDatabase,
        user_id: &String,
        rating: i64,
        deviation: i64,
        volatility: u64,
    ) -> (r: Result<(), ServiceError>)
        requires
            old(db).inv(),
        ensures
            final(db).inv(),
            r is Ok <==> user_id@ == old(db)@.user.id,
            r is Ok ==> final(db)@.user == (UserV {
                rating: Rating { rating, deviation, volatility },
                ..old(db)@.user
            }),
            r is Err ==> final(db)@ == old(db)@,
            final(db)@ == (DbV { user: final(db)@.user, ..old(db)@ }),
    {
        match db.get_user_by_id(user_id) {
            Some(mut user) => {
                user.rating = Rating { rating, deviation, volatility };
                db.update_user(&user);
                Ok(())
            },
            None => Err(ServiceError::InternalError("no such user".to_owned())),
        }
    }

    /// Applies a rating-engine result under the "good never lowers" guard:
    /// the guarded triple is stored on the user and returned.
    pub fn update_rating(
        &self,
        db: &mut PuzzleDatabase,
        user_id: &String,
        difficulty: Difficulty,
        new_rating: Rating,
    ) -> (r: Result<Rating, ServiceError>)
        requires
            old(db).inv(),
        ensures
            final(db).inv(),
            r is Ok <==> user_id@ == old(db)@.user.id,
            r matches Ok(persisted) ==> {
                &&& persisted == spec_guarded_update(
                    difficulty,
                    old(db)@.user.rating,
                    new_rating,
                )
                &&& final(db)@.user == (UserV { rating: persisted, ..old(db)@.user })
                &&& difficulty == Difficulty::Good ==> persisted.rating
                    >= old(db)@.user.rating.rating
            },
            r is Err ==> final(db)@ == old(db)@,
            final(db)@ == (DbV { user: final(db)@.user, ..old(db)@ }),
    {
        match db.get_user_by_id(user_id) {
            Some(mut user) => {
                let prior = user.rating;
                let persisted = guarded_update(difficulty, prior, new_rating);
                if persisted.rating != prior.rating || persisted.deviation != prior.deviation
                    || persisted.volatility != prior.volatility {
                    user.rating = persisted;
                    db.update_user(&user);
                }
                Ok(persisted)
            },
            None => Err(ServiceError::InternalError("no such user".to_owned())),
        }
    }

    /// The user's statistics at `now`: card and review counts, how many
    /// reviews are up now and today, and when the next review is due.
    pub fn get_user_stats(
        &self,
        db: &PuzzleDatabase,
        user_id: &String,
        now: Timestamp,
    ) -> (r: Result<Stats, ServiceError>)
        requires
            db.inv(),
            now.wf(),
        ensures
            r is Ok <==> user_id@ == "local"@,
            r matches Ok(stats) ==> {
                let day_end = db@.srs_config.spec_day_end_datetime(now);
                &&& stats.card_count == db@.cards.len()
                &&& stats.review_count == vstd::math::min(
                    spec_sum_review_counts(db@.cards),
                    u64::MAX as int,
                )
                &&& stats.reviews_due_now == spec_count_due_by(db@.cards, now, day_end)
                &&& stats.reviews_due_today == spec_count_due_by(db@.cards, day_end, day_end)
                &&& stats.reviews_due_now > 0 ==> stats.next_review_due == Some(now)
                &&& stats.reviews_due_now == 0 ==> {
                    &&& (stats.next_review_due is Some <==> exists|i: int|
                        spec_due_candidate(db@, i, day_end, 0))
                    &&& stats.next_review_due matches Some(t) ==> {
                        &&& exists|i: int|
                            spec_due_candidate(db@, i, day_end, 0) && db@.cards[i].due == t
                        &&& forall|j: int|
                            spec_due_candidate(db@, j, day_end, 0) ==> t.utc_seconds
                                <= db@.cards[j].due.utc_seconds
                    }
                }
            },
    {
        if !is_local_user(user_id) {
            return Err(ServiceError::InternalError("invalid user id in local user mode".to_owned()));
        }
        let day_end = db.srs_config.day_end_datetime(now);
        let card_count = db.get_card_count();
        let review_count = db.get_review_count();
        let reviews_due_now = db.reviews_due_by(now, day_end);
        let reviews_due_today = db.reviews_due_by(day_end, day_end);
        let next_review_due: Option<Timestamp> = if reviews_due_now == 0 {
            db.earliest_due_candidate(day_end)
        } else {
            Some(now)
        };
        Ok(Stats { card_count, review_count, reviews_due_now, reviews_due_today, next_review_due })
    }

    /// The review forecast over the coming `length_days` days.
    pub fn get_review_forecast(
        &self,
        db: &PuzzleDatabase,
        user_id: &String,
        length_days: u64,
        now: Timestamp,
    ) -> (r: Result<Vec<u64>, ServiceError>)
        requires
            db.inv(),
            now.wf(),
            length_days <= 3650,
        ensures
            r is Ok <==> user_id@ == "local"@,
            r matches Ok(forecast) ==> {
                let day_end = db@.srs_config.spec_day_end_datetime(now);
                &&& forecast@.len() == length_days
                &&& forall|d: int|
                    0 <= d < length_days ==> forecast@[d] == spec_count_forecast_day(
                        db@.cards,
                        day_end,
                        d,
                    )
            },
    {
        if !is_local_user(user_id) {
            return Err(ServiceError::InternalError("invalid user id in local user mode".to_owned()));
        }
        let day_end = db.srs_config.day_end_datetime(now);
        Ok(db.get_review_forecast(day_end, length_days))
    }

    /// The user's rating history: per hour with a snapshot, the highest
    /// snapshot, chronologically, ending with the current rating at `now`.
    pub fn get_rating_history(
        &self,
        db: &PuzzleDatabase,
        user_id: &String,
        now: Timestamp,
    ) -> (r: Result<Vec<(Timestamp, i64)>, ServiceError>)
        requires
            db.inv(),
        ensures
            r is Ok,
            r matches Ok(h) ==> {
                &&& h@.len() >= 1
                &&& h@[h@.len() - 1] == (now, db@.user.rating.rating)
                &&& forall|a: int, b: int|
                    0 <= a < b < h@.len() - 1 ==> spec_hour_bucket(h@[a].0) < spec_hour_bucket(
                        h@[b].0,
                    )
                &&& forall|k: int|
                    0 <= k < h@.len() - 1 ==> spec_history_entry_ok(
                        db@.reviews,
                        user_id@,
                        #[trigger] h@[k],
                    )
                &&& forall|k: int, ri: int|
                    0 <= k < h@.len() - 1 && 0 <= ri < db@.reviews.len()
                        && spec_history_relevant(#[trigger] db@.reviews[ri], user_id@)
                        && spec_hour_bucket(db@.reviews[ri].date) == spec_hour_bucket(
                        (#[trigger] h@[k]).0,
                    ) ==> spec_snapshot(db@.reviews[ri]) <= h@[k].1
                &&& forall|ri: int|
                    0 <= ri < db@.reviews.len() && spec_history_relevant(
                        #[trigger] db@.reviews[ri],
                        user_id@,
                    ) ==> exists|k: int|
                        0 <= k < h@.len() - 1 && spec_hour_bucket(h@[k].0) == spec_hour_bucket(
                            db@.reviews[ri].date,
                        )
            },
    {
        Ok(db.get_user_rating_history(user_id, now))
    }

    /// The review-score histogram with the given rating-window width.
    pub fn get_review_score_histogram(
        &self,
        db: &PuzzleDatabase,
        user_id: &String,
        bucket_size: i64,
    ) -> (r: Result<Vec<crate::db::ReviewScoreBucket>, ServiceError>)
        requires
            db.inv(),
            1 <= bucket_size,
            forall|i: int|
                0 <= i < db@.puzzles.len() ==> i64::MIN + bucket_size <= (
                #[trigger] db@.puzzles[i]).rating && db@.puzzles[i].rating + bucket_size
                    <= i64::MAX,
        ensures
            r is Ok,
            r matches Ok(h) ==> {
                &&& spec_bars_sorted(h@)
                &&& forall|k: int|
                    0 <= k < h@.len() ==> (#[trigger] h@[k]).puzzle_rating_max == h@[
                        k
                    ].puzzle_rating_min + bucket_size && h@[k].review_count
                        == spec_count_histogram_bar(
                        db@.reviews,
                        user_id@,
                        db@.puzzles,
                        bucket_size as int,
                        h@[k].puzzle_rating_min as int,
                        h@[k].difficulty,
                    ) && h@[k].review_count > 0
                &&& forall|ri: int|
                    0 <= ri < db@.reviews.len() && spec_histogram_relevant(
                        #[trigger] db@.reviews[ri],
                        user_id@,
                        db@.puzzles,
                    ) ==> exists|k: int|
                        0 <= k < h@.len() && spec_bar_has_key(
                            #[trigger] h@[k],
                            spec_bucket_floor(
                                spec_puzzle_with_id(
                                    db@.puzzles,
                                    db@.reviews[ri].puzzle_id,
                                ).rating as int,
                                bucket_size as int,
                            ),
                            db@.reviews[ri].difficulty,
                        )
            },
    {
        Ok(db.get_review_score_history(user_id, bucket_size))
    }
}

/// Whether the given id names the local user.
pub fn is_local_user(user_id: &String) -> (r: bool)
    ensures
        r == (user_id@ == "local"@),
{
    let local: String = "local".to_owned();
    *user_id == local
}

} // verus!
