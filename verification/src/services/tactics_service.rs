//! Application logic for tactics: fetching puzzles, choosing the next
//! review, sampling new puzzles, applying reviews and skipping.

use vstd::prelude::*;

use crate::app::AppConfig;
use crate::db::card::{
    spec_due_candidate, spec_has_card, spec_min_interval, spec_puzzle_with_id, spec_upsert_card,
};
use crate::db::puzzle::{
    spec_has_puzzle, spec_max_puzzle_rating, spec_min_puzzle_rating,
};
use crate::db::{DbV, PuzzleDatabase, Puzzle, Review, ReviewV};
use crate::rating::Rating;
use crate::services::ServiceError;
use crate::srs::{
    spec_clamp, Card, Difficulty, ReviewOrder, INITIAL_INTERVAL_LAST_SECONDS,
    MAX_INTERVAL_SECONDS,
};
use crate::time::{Timestamp, MAX_TIMESTAMP_SECONDS};

verus! {

/// Card `i` can appear in the review queue at `now`: either it is due
/// outright, or it is due by the day boundary and past the learning steps
/// (review-ahead never surfaces cards still in learning).
pub open spec fn spec_queue_candidate(db: DbV, i: int, now: Timestamp) -> bool {
    ||| spec_due_candidate(db, i, now, 0)
    ||| spec_due_candidate(
        db,
        i,
        db.srs_config.spec_day_end_datetime(now),
        INITIAL_INTERVAL_LAST_SECONDS as int,
    )
}

/// Application logic to do with tactics.
pub struct TacticsService {
    pub app_config: AppConfig,
}

impl TacticsService {
    pub fn new(app_config: AppConfig) -> (r: TacticsService)
        ensures
            r.app_config == app_config,
    {
        TacticsService { app_config }
    }

    /// The puzzle with the given id and, when it exists, its card.
    pub fn get_puzzle_by_id(&self, db: &PuzzleDatabase, puzzle_id: &String) -> (r: Result<
        (Option<Puzzle>, Option<Card>),
        ServiceError,
    >)
        ensures
            r is Ok,
            r matches Ok((p, c)) ==> {
                &&& p is Some <==> spec_has_puzzle(db@.puzzles, puzzle_id@)
                &&& p matches Some(pz) ==> exists|i: int|
                    0 <= i < db@.puzzles.len() && db@.puzzles[i].puzzle_id == puzzle_id@ && pz@
                        == db@.puzzles[i]
                &&& p is Some ==> (c is Some <==> spec_has_card(db@.cards, puzzle_id@))
                &&& p is None ==> c is None
                &&& c matches Some(cd) ==> exists|i: int|
                    0 <= i < db@.cards.len() && db@.cards[i].id == puzzle_id@ && cd@
                        == db@.cards[i]
            },
    {
        let puzzle = db.get_puzzle_by_id(puzzle_id);
        let card = match &puzzle {
            Some(_) => db.get_card_by_id(puzzle_id),
            None => None,
        };
        Ok((puzzle, card))
    }

    /// The next review to show: the best queue candidate under the
    /// configured review order, or nothing when no card is up.
    pub fn get_next_review(&self, db: &PuzzleDatabase, now: Timestamp) -> (r: Result<
        Option<(Puzzle, Card)>,
        ServiceError,
    >)
        requires
            db.inv(),
            now.wf(),
            self.app_config.srs == db@.srs_config,
        ensures
            r is Ok,
            r matches Ok(o) ==> {
                &&& o is Some <==> exists|i: int| spec_queue_candidate(db@, i, now)
                &&& o matches Some((p, c)) ==> {
                    &&& exists|i: int| spec_queue_candidate(db@, i, now) && c@ == db@.cards[i]
                    &&& spec_has_puzzle(db@.puzzles, c@.id)
                    &&& p@ == spec_puzzle_with_id(db@.puzzles, c@.id)
                    &&& db@.srs_config.review_order == ReviewOrder::DueTime ==> forall|j: int|
                        spec_queue_candidate(db@, j, now) ==> c@.due.utc_seconds
                            <= db@.cards[j].due.utc_seconds
                    &&& db@.srs_config.review_order == ReviewOrder::PuzzleRating ==> forall|j: int|
                        spec_queue_candidate(db@, j, now) ==> p@.rating <= spec_puzzle_with_id(
                            db@.puzzles,
                            db@.cards[j].id,
                        ).rating
                }
            },
    {
        let due_now = db.get_next_review_due(now, None);
        let day_end = self.app_config.srs.day_end_datetime(now);
        let ahead_today = db.get_next_review_due(day_end, Some(INITIAL_INTERVAL_LAST_SECONDS));
        proof {
            assert(spec_min_interval(Option::<u64>::None) == 0);
            assert(spec_min_interval(Some(INITIAL_INTERVAL_LAST_SECONDS))
                == INITIAL_INTERVAL_LAST_SECONDS as int);
        }
        let ghost de = db@.srs_config.spec_day_end_datetime(now);
        let ghost ml = INITIAL_INTERVAL_LAST_SECONDS as int;
        match (due_now, ahead_today) {
            (None, None) => {
                proof {
                    assert forall|i: int| !spec_queue_candidate(db@, i, now) by {
                        assert(!spec_due_candidate(
                            db@,
                            i,
                            now,
                            spec_min_interval(Option::<u64>::None),
                        ));
                        assert(!spec_due_candidate(
                            db@,
                            i,
                            de,
                            spec_min_interval(Some(INITIAL_INTERVAL_LAST_SECONDS)),
                        ));
                    }
                }
                Ok(None)
            },
            (Some((c, p)), None) => {
                proof {
                    let w = choose|i: int|
                        spec_due_candidate(db@, i, now, spec_min_interval(Option::<u64>::None))
                            && c@ == db@.cards[i];
                    assert(spec_queue_candidate(db@, w, now) && c@ == db@.cards[w]);
                    assert forall|j: int| spec_queue_candidate(db@, j, now)
                        implies !spec_due_candidate(db@, j, de, ml) && spec_due_candidate(
                        db@,
                        j,
                        now,
                        spec_min_interval(Option::<u64>::None),
                    ) by {
                        assert(!spec_due_candidate(
                            db@,
                            j,
                            de,
                            spec_min_interval(Some(INITIAL_INTERVAL_LAST_SECONDS)),
                        ));
                    }
                }
                Ok(Some((p, c)))
            },
            (None, Some((c, p))) => {
                proof {
                    let w = choose|i: int|
                        spec_due_candidate(
                            db@,
                            i,
                            de,
                            spec_min_interval(Some(INITIAL_INTERVAL_LAST_SECONDS)),
                        ) && c@ == db@.cards[i];
                    assert(spec_queue_candidate(db@, w, now) && c@ == db@.cards[w]);
                    assert forall|j: int| spec_queue_candidate(db@, j, now)
                        implies !spec_due_candidate(db@, j, now, 0) && spec_due_candidate(
                        db@,
                        j,
                        de,
                        spec_min_interval(Some(INITIAL_INTERVAL_LAST_SECONDS)),
                    ) by {
                        assert(!spec_due_candidate(
                            db@,
                            j,
                            now,
                            spec_min_interval(Option::<u64>::None),
                        ));
                    }
                }
                Ok(Some((p, c)))
            },
            (Some((ac, ap)), Some((bc, bp))) => {
                let pick_first: bool = match self.app_config.srs.review_order {
                    ReviewOrder::DueTime => ac.due.utc_seconds < bc.due.utc_seconds,
                    ReviewOrder::PuzzleRating => ap.rating < bp.rating,
                    ReviewOrder::Random => true,
                };
                if pick_first {
                    proof {
                        let w = choose|i: int|
                            spec_due_candidate(
                                db@,
                                i,
                                now,
                                spec_min_interval(Option::<u64>::None),
                            ) && ac@ == db@.cards[i];
                        assert(spec_queue_candidate(db@, w, now) && ac@ == db@.cards[w]);
                        assert forall|j: int| spec_queue_candidate(db@, j, now)
                            implies spec_due_candidate(
                            db@,
                            j,
                            now,
                            spec_min_interval(Option::<u64>::None),
                        ) || spec_due_candidate(
                            db@,
                            j,
                            de,
                            spec_min_interval(Some(INITIAL_INTERVAL_LAST_SECONDS)),
                        ) by {}
                    }
                    Ok(Some((ap, ac)))
                } else {
                    proof {
                        let w = choose|i: int|
                            spec_due_candidate(
                                db@,
                                i,
                                de,
                                spec_min_interval(Some(INITIAL_INTERVAL_LAST_SECONDS)),
                            ) && bc@ == db@.cards[i];
                        assert(spec_queue_candidate(db@, w, now) && bc@ == db@.cards[w]);
                        assert forall|j: int| spec_queue_candidate(db@, j, now)
                            implies spec_due_candidate(
                            db@,
                            j,
                            now,
                            spec_min_interval(Option::<u64>::None),
                        ) || spec_due_candidate(
                            db@,
                            j,
                            de,
                            spec_min_interval(Some(INITIAL_INTERVAL_LAST_SECONDS)),
                        ) by {}
                    }
                    Ok(Some((bp, bc)))
                }
            },
        }
    }

    /// A fresh puzzle to train on: one sampled from the rating window
    /// (clamped to the corpus's rating range), preferring one without a
    /// card, together with its card when it already has one.
    pub fn get_random_puzzle(&self, db: &PuzzleDatabase, min_rating: i64, max_rating: i64) -> (r:
        Result<(Option<Puzzle>, Option<Card>), ServiceError>)
        requires
            db.inv(),
        ensures
            r is Ok,
            r matches Ok((p, c)) ==> {
                let lo = spec_clamp(
                    min_rating as int,
                    spec_min_puzzle_rating(db@.puzzles),
                    spec_max_puzzle_rating(db@.puzzles),
                );
                let hi = spec_clamp(
                    max_rating as int,
                    spec_min_puzzle_rating(db@.puzzles),
                    spec_max_puzzle_rating(db@.puzzles),
                );
                &&& p is Some <==> exists|i: int|
                    0 <= i < db@.puzzles.len() && lo <= (#[trigger] db@.puzzles[i]).rating <= hi
                &&& p matches Some(pz) ==> {
                    &&& exists|i: int| 0 <= i < db@.puzzles.len() && pz@ == db@.puzzles[i]
                    &&& lo <= pz@.rating <= hi
                    &&& (c is Some <==> spec_has_card(db@.cards, pz@.puzzle_id))
                    &&& c matches Some(cd) ==> exists|i: int|
                        0 <= i < db@.cards.len() && db@.cards[i].id == pz@.puzzle_id && cd@
                            == db@.cards[i]
                }
                &&& p is None ==> c is None
            },
    {
        let min_puzzle_rating = db.get_min_puzzle_rating();
        let max_puzzle_rating = db.get_max_puzzle_rating();
        let lo = clamp_i64(min_rating, min_puzzle_rating, max_puzzle_rating);
        let hi = clamp_i64(max_rating, min_puzzle_rating, max_puzzle_rating);

        // A sample that already has a card is retried a few times, for
        // stores whose scan order varies between samples; the last sample
        // is returned regardless (reviewing ahead is acceptable).
        let mut puzzle: Option<Puzzle> = None;
        let mut card: Option<Card> = None;
        let mut retry: usize = 0;
        let mut done: bool = false;
        while retry < 5 && !done
            invariant
                db.inv(),
                puzzle matches Some(pz) ==> {
                    &&& exists|i: int| 0 <= i < db@.puzzles.len() && pz@ == db@.puzzles[i]
                    &&& lo <= pz@.rating <= hi
                    &&& (card is Some <==> spec_has_card(db@.cards, pz@.puzzle_id))
                    &&& card matches Some(cd) ==> exists|i: int|
                        0 <= i < db@.cards.len() && db@.cards[i].id == pz@.puzzle_id && cd@
                            == db@.cards[i]
                },
                puzzle is None ==> card is None,
                (retry > 0 || done) ==> (puzzle is Some <==> exists|i: int|
                    0 <= i < db@.puzzles.len() && lo <= (#[trigger] db@.puzzles[i]).rating
                        <= hi),
            decreases 5 - retry,
        {
            let sampled = db.get_puzzles_by_rating(lo, hi, 1);
            if sampled.len() > 0 {
                let pz = sampled[0].duplicate();
                proof {
                    assert(sampled@[0]@ == pz@);
                }
                card = db.get_card_by_id(&pz.puzzle_id);
                if card.is_none() {
                    done = true;
                }
                puzzle = Some(pz);
            } else {
                proof {
                    assert(puzzle is None);
                }
                done = true;
            }
            retry = retry + 1;
        }
        Ok((puzzle, card))
    }

    /// Applies a graded review: steps the card's schedule at `time_now`,
    /// stores the updated card, and appends a review row stamped with the
    /// user's post-update rating.
    pub fn apply_review(
        &self,
        db: &mut PuzzleDatabase,
        user_id: &String,
        user_rating: Rating,
        card: Card,
        difficulty: Difficulty,
        time_now: Timestamp,
    ) -> (r: Result<(), ServiceError>)
        requires
            old(db).inv(),
            card@.wf(),
            card@.srs_config == old(db)@.srs_config,
            time_now.wf(),
            time_now.utc_seconds + MAX_INTERVAL_SECONDS <= MAX_TIMESTAMP_SECONDS,
            card.ease + 15 <= u32::MAX,
            card.review_count < u64::MAX,
        ensures
            r is Ok,
            final(db).inv(),
            final(db)@.cards == spec_upsert_card(
                old(db)@.cards,
                card@.spec_review(time_now, difficulty),
            ),
            final(db)@.reviews == old(db)@.reviews.push(
                ReviewV {
                    user_id: user_id@,
                    puzzle_id: card@.id,
                    difficulty,
                    date: time_now,
                    user_rating: Some(user_rating.rating),
                },
            ),
            final(db)@ == (DbV {
                cards: final(db)@.cards,
                reviews: final(db)@.reviews,
                ..old(db)@
            }),
    {
        let mut card = card;
        card.review(time_now, difficulty);
        db.update_or_create_card(&card);
        db.add_review_for_user(
            Review {
                user_id: user_id.clone(),
                puzzle_id: card.id.clone(),
                difficulty,
                date: time_now,
                user_rating: Some(user_rating.rating),
            },
        );
        Ok(())
    }

    /// Records that the user skipped a puzzle, when the puzzle exists.
    pub fn skip_puzzle(
        &self,
        db: &mut PuzzleDatabase,
        user_id: &String,
        puzzle: &Puzzle,
        time_now: Timestamp,
    ) -> (r: Result<(), ServiceError>)
        requires
            old(db).inv(),
        ensures
            r is Ok,
            final(db).inv(),
            spec_has_puzzle(old(db)@.puzzles, puzzle@.puzzle_id) ==> final(db)@.skipped_puzzles
                == old(db)@.skipped_puzzles.push(
                crate::db::SkippedPuzzleV {
                    user_id: user_id@,
                    puzzle_id: puzzle@.puzzle_id,
                    date: time_now,
                },
            ),
            !spec_has_puzzle(old(db)@.puzzles, puzzle@.puzzle_id) ==> final(db)@
                == old(db)@,
            final(db)@ == (DbV { skipped_puzzles: final(db)@.skipped_puzzles, ..old(db)@ }),
    {
        let exists_in_corpus = db.get_puzzle_by_id(&puzzle.puzzle_id);
        match exists_in_corpus {
            Some(_) => {
                db.add_skipped_puzzle(user_id, &puzzle.puzzle_id, time_now);
            },
            None => {},
        }
        Ok(())
    }
}

/// `x` forced into `[lo, hi]` (callers keep `lo <= hi`).
fn clamp_i64(x: i64, lo: i64, hi: i64) -> (r: i64)
    requires
        lo <= hi,
    ensures
        r == spec_clamp(x as int, lo as int, hi as int),
{
    if x < lo {
        lo
    } else if x > hi {
        hi
    } else {
        x
    }
}

} // verus!
