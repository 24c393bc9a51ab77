//! The tactics operations: grading a review, fetching the next review or a
//! specific or random puzzle, and skipping the sticky next puzzle.

use vstd::prelude::*;

use crate::api::ApiError;
use crate::app::AppState;
use crate::db::card::{spec_card_with_id, spec_has_card, spec_upsert_card};
use crate::db::card::spec_puzzle_with_id;
use crate::db::puzzle::{spec_has_puzzle, spec_max_puzzle_rating, spec_min_puzzle_rating};
use crate::db::{DbV, Puzzle, ReviewV, SkippedPuzzleV, UserV};
use crate::rating::{spec_guarded_update, Rating};
use crate::services::user_service::UserService;
use crate::services::tactics_service::spec_queue_candidate;
use crate::srs::{
    spec_clamp, Card, CardV, Difficulty, ReviewOrder, INITIAL_INTERVAL_FIRST_SECONDS,
    MAX_INTERVAL_SECONDS,
};
use crate::time::{Timestamp, MAX_TIMESTAMP_SECONDS};

verus! {

/// A graded review submitted by the interface.  `review_count` is the
/// card's review count as the client saw it; a stale count means the
/// request was already applied and is ignored.
#[derive(Debug, Clone)]
pub struct ReviewRequest {
    pub id: String,
    pub difficulty: i64,
    pub review_count: u64,
}

/// A request to skip the sticky next puzzle, optionally grading it for the
/// rating.
#[derive(Debug, Clone)]
pub struct SkipRequest {
    pub id: String,
    pub difficulty: i64,
    pub update_rating: bool,
}

/// A puzzle with its card, as the interface renders them.
#[derive(Debug, Clone)]
pub struct CardResponse {
    pub puzzle: Option<Puzzle>,
    pub card: Option<Card>,
    pub due_today: bool,
}

/// The user record after the sticky next puzzle was cleared, when it named
/// the reviewed puzzle.
pub open spec fn spec_user_after_clear(user: UserV, puzzle_id: Seq<char>) -> UserV {
    if user.next_puzzle == Some(puzzle_id) {
        UserV { next_puzzle: None, ..user }
    } else {
        user
    }
}

/// The card the review applies to: the stored one, or a fresh card due now.
pub open spec fn spec_review_target_card(db: DbV, puzzle_id: Seq<char>, now: Timestamp) -> CardV {
    if spec_has_card(db.cards, puzzle_id) {
        spec_card_with_id(db.cards, puzzle_id)
    } else {
        CardV {
            id: puzzle_id,
            due: now,
            interval: INITIAL_INTERVAL_FIRST_SECONDS,
            review_count: 0u64,
            ease: db.srs_config.default_ease,
            learning_stage: 0usize,
            srs_config: db.srs_config,
        }
    }
}

/// Applies a graded review: the sticky next puzzle is cleared when it was
/// the reviewed one; a stale review count returns success without touching
/// anything else; otherwise the guarded rating is persisted, the card is
/// stepped and stored, and a review row stamped with the persisted rating
/// is appended.  `rated` is the triple the rating engine computed for this
/// outcome.
#[verifier::rlimit(100)]
pub fn review(state: &mut AppState, request: &ReviewRequest, now: Timestamp, rated: Rating) -> (r:
    Result<(), ApiError>)
    requires
        old(state).inv(),
        old(state).db@.user.id == "local"@,
        old(state).db@.sched_headroom(),
        now.wf(),
        now.utc_seconds + MAX_INTERVAL_SECONDS <= MAX_TIMESTAMP_SECONDS,
    ensures
        final(state).inv(),
        final(state).app_config == old(state).app_config,
        r is Ok <==> (0 <= request.difficulty <= 3 && spec_has_puzzle(
            old(state).db@.puzzles,
            request.id@,
        )),
        !(0 <= request.difficulty <= 3) ==> final(state).db@ == old(state).db@ && (r matches Err(
            e,
        ) ==> e is InvalidParameter),
        0 <= request.difficulty <= 3 ==> {
            let user1 = spec_user_after_clear(old(state).db@.user, request.id@);
            let db1 = DbV { user: user1, ..old(state).db@ };
            &&& !spec_has_puzzle(old(state).db@.puzzles, request.id@) ==> final(state).db@
                == db1 && (r matches Err(e) ==> e is InternalError)
            &&& spec_has_puzzle(old(state).db@.puzzles, request.id@) ==> {
                let card0 = spec_review_target_card(old(state).db@, request.id@, now);
                let difficulty = choose|d: Difficulty| d.spec_to_i64() == request.difficulty;
                &&& card0.review_count != request.review_count ==> final(state).db@ == db1
                &&& card0.review_count == request.review_count ==> {
                    let persisted = spec_guarded_update(
                        difficulty,
                        old(state).db@.user.rating,
                        rated,
                    );
                    &&& final(state).db@.user == (UserV { rating: persisted, ..user1 })
                    &&& final(state).db@.cards == spec_upsert_card(
                        old(state).db@.cards,
                        card0.spec_review(now, difficulty),
                    )
                    &&& final(state).db@.reviews == old(state).db@.reviews.push(
                        ReviewV {
                            user_id: "local"@,
                            puzzle_id: request.id@,
                            difficulty,
                            date: now,
                            user_rating: Some(persisted.rating),
                        },
                    )
                    &&& final(state).db@.puzzles == old(state).db@.puzzles
                    &&& final(state).db@.skipped_puzzles == old(state).db@.skipped_puzzles
                    &&& difficulty == Difficulty::Good ==> persisted.rating
                        >= old(state).db@.user.rating.rating
                }
            }
        },
{
    let user_id: String = UserService::local_user_id().to_owned();
    let difficulty = match Difficulty::from_i64(request.difficulty) {
        Ok(d) => d,
        Err(_) => {
            return Err(ApiError::InvalidParameter("difficulty".to_owned()));
        },
    };
    proof {
        assert(difficulty.spec_to_i64() == request.difficulty);
        let d2 = choose|d: Difficulty| d.spec_to_i64() == request.difficulty;
        crate::db::card::lemma_difficulty_code_injective(difficulty, d2);
    }
    match state.user_service.get_user_next_puzzle(&state.db, &user_id) {
        Ok(Some(saved)) => {
            if crate::db::puzzle::string_eq(&saved, &request.id) {
                match state.user_service.set_user_next_puzzle(&mut state.db, &user_id, None) {
                    Ok(()) => {},
                    Err(_) => {
                        return Err(ApiError::InternalError("no such user".to_owned()));
                    },
                }
            }
        },
        Ok(None) => {},
        Err(_) => {},
    }
    let looked_up = match state.tactics_service.get_puzzle_by_id(&state.db, &request.id) {
        Ok(v) => v,
        Err(_) => {
            return Err(ApiError::InternalError("store failure".to_owned()));
        },
    };
    let card_opt = looked_up.1;
    match looked_up.0 {
        Some(_) => {},
        None => {
            return Err(ApiError::InternalError("no such puzzle".to_owned()));
        },
    }
    let card = match card_opt {
        Some(c) => c,
        None => Card::new(request.id.as_str(), now, state.app_config.srs),
    };
    proof {
        assert(card@ == spec_review_target_card(old(state).db@, request.id@, now)) by {
            if spec_has_card(old(state).db@.cards, request.id@) {
                let i = choose|i: int|
                    0 <= i < old(state).db@.cards.len() && old(state).db@.cards[i].id
                        == request.id@ && card@ == old(state).db@.cards[i];
                crate::db::card::lemma_card_with_id(old(state).db@.cards, i);
            }
        }
    }
    if card.review_count != request.review_count {
        return Ok(());
    }
    let new_rating = match state.user_service.update_rating(
        &mut state.db,
        &user_id,
        difficulty,
        rated,
    ) {
        Ok(r0) => r0,
        Err(_) => {
            return Err(ApiError::InternalError("no such user".to_owned()));
        },
    };
    match state.tactics_service.apply_review(
        &mut state.db,
        &user_id,
        new_rating,
        card,
        difficulty,
        now,
    ) {
        Ok(()) => Ok(()),
        Err(_) => Err(ApiError::InternalError("store failure".to_owned())),
    }
}

/// The next due review, rendered for the interface: the best queue
/// candidate under the configured review order, with its puzzle.
pub fn next_review(state: &AppState, now: Timestamp) -> (r: Result<CardResponse, ApiError>)
    requires
        state.inv(),
        now.wf(),
    ensures
        r is Ok,
        r matches Ok(resp) ==> {
            &&& resp.puzzle is Some <==> exists|i: int|
                spec_queue_candidate(state.db@, i, now)
            &&& resp.card is Some <==> resp.puzzle is Some
            &&& resp.due_today == resp.puzzle is Some
            &&& resp.card matches Some(c) ==> {
                &&& exists|i: int|
                    spec_queue_candidate(state.db@, i, now) && c@ == state.db@.cards[i]
                &&& spec_has_puzzle(state.db@.puzzles, c@.id)
                &&& (resp.puzzle matches Some(p) && p@ == spec_puzzle_with_id(
                    state.db@.puzzles,
                    c@.id,
                ))
                &&& state.db@.srs_config.review_order == ReviewOrder::DueTime ==> forall|j: int|
                    spec_queue_candidate(state.db@, j, now) ==> c@.due.utc_seconds
                        <= state.db@.cards[j].due.utc_seconds
                &&& state.db@.srs_config.review_order == ReviewOrder::PuzzleRating ==> forall|
                    j: int,
                |
                    spec_queue_candidate(state.db@, j, now) ==> spec_puzzle_with_id(
                        state.db@.puzzles,
                        c@.id,
                    ).rating <= spec_puzzle_with_id(
                        state.db@.puzzles,
                        state.db@.cards[j].id,
                    ).rating
            }
        },
{
    match state.tactics_service.get_next_review(&state.db, now) {
        Ok(Some((puzzle, card))) => Ok(
            CardResponse { puzzle: Some(puzzle), card: Some(card), due_today: true },
        ),
        Ok(None) => Ok(CardResponse { puzzle: None, card: None, due_today: false }),
        Err(_) => Err(ApiError::InternalError("store failure".to_owned())),
    }
}

/// A specific puzzle with its card (a fresh card when it was never
/// reviewed) and whether it is due today.
pub fn puzzle_by_id(state: &AppState, puzzle_id: &String, now: Timestamp) -> (r: Result<
    CardResponse,
    ApiError,
>)
    requires
        state.inv(),
        now.wf(),
    ensures
        r is Ok,
        r matches Ok(resp) ==> {
            &&& resp.puzzle is Some <==> spec_has_puzzle(state.db@.puzzles, puzzle_id@)
            &&& resp.puzzle is Some ==> (resp.card matches Some(c) && c@
                == spec_review_target_card(state.db@, puzzle_id@, now) && resp.due_today
                == c@.spec_is_due(now))
            &&& resp.puzzle is None ==> resp.card is None && !resp.due_today
        },
{
    let looked_up = match state.tactics_service.get_puzzle_by_id(&state.db, puzzle_id) {
        Ok(v) => v,
        Err(_) => {
            return Err(ApiError::InternalError("store failure".to_owned()));
        },
    };
    match looked_up.0 {
        Some(puzzle) => {
            let card = match looked_up.1 {
                Some(c) => c,
                None => Card::new(puzzle_id.as_str(), now, state.app_config.srs),
            };
            proof {
                if spec_has_card(state.db@.cards, puzzle_id@) {
                    let i = choose|i: int|
                        0 <= i < state.db@.cards.len() && state.db@.cards[i].id == puzzle_id@
                            && card@ == state.db@.cards[i];
                    crate::db::card::lemma_card_with_id(state.db@.cards, i);
                }
            }
            let due_today = card.is_due(now);
            Ok(CardResponse { puzzle: Some(puzzle), card: Some(card), due_today })
        },
        None => Ok(CardResponse { puzzle: None, card: None, due_today: false }),
    }
}

/// A fresh sample was taken: a puzzle comes back exactly when the rating
/// window (clamped to the corpus range) holds one; the sampled puzzle comes
/// from that window and is remembered as the sticky next puzzle; an empty
/// sample leaves the store untouched.
pub open spec fn spec_fresh_sample_ok(
    old_db: DbV,
    new_db: DbV,
    resp: CardResponse,
    min_rating: int,
    max_rating: int,
) -> bool {
    let lo = spec_clamp(
        min_rating,
        spec_min_puzzle_rating(old_db.puzzles),
        spec_max_puzzle_rating(old_db.puzzles),
    );
    let hi = spec_clamp(
        max_rating,
        spec_min_puzzle_rating(old_db.puzzles),
        spec_max_puzzle_rating(old_db.puzzles),
    );
    &&& (resp.puzzle is Some <==> exists|i: int|
        0 <= i < old_db.puzzles.len() && lo <= (#[trigger] old_db.puzzles[i]).rating <= hi)
    &&& (resp.puzzle matches Some(p) ==> lo <= p@.rating <= hi && resp.card is Some
        && exists|i: int|
        0 <= i < old_db.puzzles.len() && p@ == old_db.puzzles[i] && new_db.user == (UserV {
            next_puzzle: Some(p@.puzzle_id),
            ..old_db.user
        }))
    &&& (resp.puzzle is None ==> new_db == old_db)
}

/// A random new puzzle, honouring the sticky next puzzle: a stored next
/// puzzle that was never reviewed is returned again; otherwise a puzzle is
/// sampled from the rating window and remembered as the new sticky next.
#[verifier::rlimit(100)]
pub fn random_puzzle(state: &mut AppState, min_rating: i64, max_rating: i64, now: Timestamp) -> (r:
    Result<CardResponse, ApiError>)
    requires
        old(state).inv(),
        old(state).db@.user.id == "local"@,
        now.wf(),
    ensures
        final(state).inv(),
        final(state).app_config == old(state).app_config,
        r is Ok,
        final(state).db@ == (DbV { user: final(state).db@.user, ..old(state).db@ }),
        r matches Ok(resp) ==> (match old(state).db@.user.next_puzzle {
            Some(sid) => {
                if spec_has_puzzle(old(state).db@.puzzles, sid) && !spec_has_card(
                    old(state).db@.cards,
                    sid,
                ) {
                    &&& final(state).db@ == old(state).db@
                    &&& (resp.puzzle matches Some(p) && p@.puzzle_id == sid)
                    &&& (resp.card matches Some(c) && c@.review_count == 0)
                    &&& resp.due_today
                } else {
                    spec_fresh_sample_ok(
                        old(state).db@,
                        final(state).db@,
                        resp,
                        min_rating as int,
                        max_rating as int,
                    )
                }
            },
            None => spec_fresh_sample_ok(
                        old(state).db@,
                        final(state).db@,
                        resp,
                        min_rating as int,
                        max_rating as int,
                    ),
        }),
{
    let user_id: String = UserService::local_user_id().to_owned();
    match state.user_service.get_user_next_puzzle(&state.db, &user_id) {
        Ok(Some(saved)) => {
            let looked_up = match state.tactics_service.get_puzzle_by_id(&state.db, &saved) {
                Ok(v) => v,
                Err(_) => {
                    return Err(ApiError::InternalError("store failure".to_owned()));
                },
            };
            match looked_up {
                (Some(puzzle), None) => {
                    let card = Card::new(saved.as_str(), now, state.app_config.srs);
                    return Ok(
                        CardResponse { puzzle: Some(puzzle), card: Some(card), due_today: true },
                    );
                },
                _ => {},
            }
        },
        Ok(None) => {},
        Err(_) => {},
    }
    let sampled = match state.tactics_service.get_random_puzzle(&state.db, min_rating, max_rating) {
        Ok(v) => v,
        Err(_) => {
            return Err(ApiError::InternalError("store failure".to_owned()));
        },
    };
    match sampled {
        (Some(puzzle), card_opt) => {
            match state.user_service.set_user_next_puzzle(
                &mut state.db,
                &user_id,
                Some(&puzzle.puzzle_id),
            ) {
                Ok(()) => {},
                Err(_) => {
                    return Err(ApiError::InternalError("no such user".to_owned()));
                },
            }
            let card = match card_opt {
                Some(c) => c,
                None => Card::new(puzzle.puzzle_id.as_str(), now, state.app_config.srs),
            };
            let due_today = card.is_due(now);
            Ok(CardResponse { puzzle: Some(puzzle), card: Some(card), due_today })
        },
        (None, _) => Ok(CardResponse { puzzle: None, card: None, due_today: false }),
    }
}

/// Skips the sticky next puzzle: when the request names it, a skip record
/// is appended (when the puzzle exists), the rating is updated under the
/// guard exactly when the request asks for it, and the sticky pointer is
/// cleared.  `rated` is the triple the rating engine computed for the
/// graded outcome.
#[verifier::rlimit(100)]
pub fn skip_next(state: &mut AppState, request: &SkipRequest, now: Timestamp, rated: Rating) -> (r:
    Result<(), ApiError>)
    requires
        old(state).inv(),
        old(state).db@.user.id == "local"@,
    ensures
        final(state).inv(),
        final(state).app_config == old(state).app_config,
        final(state).db@.user.id == old(state).db@.user.id,
        old(state).db@.user.next_puzzle != Some(request.id@) ==> final(state).db@ == old(
            state,
        ).db@ && r is Ok,
        old(state).db@.user.next_puzzle == Some(request.id@) ==> {
            let graded = request.update_rating && spec_has_puzzle(
                old(state).db@.puzzles,
                request.id@,
            );
            let skipped1 = if spec_has_puzzle(old(state).db@.puzzles, request.id@) {
                old(state).db@.skipped_puzzles.push(
                    SkippedPuzzleV { user_id: "local"@, puzzle_id: request.id@, date: now },
                )
            } else {
                old(state).db@.skipped_puzzles
            };
            &&& final(state).db@.skipped_puzzles == skipped1
            &&& final(state).db@.cards == old(state).db@.cards
            &&& final(state).db@.reviews == old(state).db@.reviews
            &&& final(state).db@.puzzles == old(state).db@.puzzles
            &&& (r is Ok <==> (!graded || 0 <= request.difficulty <= 3))
            &&& r is Ok ==> final(state).db@.user.next_puzzle is None
            &&& !graded ==> final(state).db@.user.rating == old(state).db@.user.rating
            &&& (graded && 0 <= request.difficulty <= 3) ==> {
                let difficulty = choose|d: Difficulty| d.spec_to_i64() == request.difficulty;
                &&& final(state).db@.user.rating == spec_guarded_update(
                    difficulty,
                    old(state).db@.user.rating,
                    rated,
                )
                &&& difficulty == Difficulty::Good ==> final(state).db@.user.rating.rating
                    >= old(state).db@.user.rating.rating
            }
            &&& (graded && !(0 <= request.difficulty <= 3)) ==> final(state).db@.user.rating
                == old(state).db@.user.rating && final(state).db@.user.next_puzzle == old(
                state,
            ).db@.user.next_puzzle
        },
{
    let user_id: String = UserService::local_user_id().to_owned();
    let saved = match state.user_service.get_user_next_puzzle(&state.db, &user_id) {
        Ok(v) => v,
        Err(_) => {
            return Err(ApiError::InternalError("store failure".to_owned()));
        },
    };
    let saved = match saved {
        Some(s) => s,
        None => {
            return Ok(());
        },
    };
    if !crate::db::puzzle::string_eq(&saved, &request.id) {
        return Ok(());
    }
    let looked_up = match state.tactics_service.get_puzzle_by_id(&state.db, &saved) {
        Ok(v) => v,
        Err(_) => {
            return Err(ApiError::InternalError("store failure".to_owned()));
        },
    };
    match looked_up.0 {
        Some(puzzle) => {
            match state.tactics_service.skip_puzzle(&mut state.db, &user_id, &puzzle, now) {
                Ok(()) => {},
                Err(_) => {
                    return Err(ApiError::InternalError("store failure".to_owned()));
                },
            }
            if request.update_rating {
                let difficulty = match Difficulty::from_i64(request.difficulty) {
                    Ok(d) => d,
                    Err(_) => {
                        return Err(ApiError::InvalidParameter("difficulty".to_owned()));
                    },
                };
                proof {
                    assert(difficulty.spec_to_i64() == request.difficulty);
                    let d2 = choose|d: Difficulty| d.spec_to_i64() == request.difficulty;
                    crate::db::card::lemma_difficulty_code_injective(difficulty, d2);
                }
                match state.user_service.update_rating(&mut state.db, &user_id, difficulty, rated) {
                    Ok(_) => {},
                    Err(_) => {
                        return Err(ApiError::InternalError("no such user".to_owned()));
                    },
                }
            }
        },
        None => {},
    }
    match state.user_service.set_user_next_puzzle(&mut state.db, &user_id, None) {
        Ok(()) => Ok(()),
        Err(_) => Err(ApiError::InternalError("no such user".to_owned())),
    }
}

} // verus!
