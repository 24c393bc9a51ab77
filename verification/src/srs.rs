//! The spaced-repetition scheduler.
//!
//! A [`Card`] is the scheduling record of one puzzle.  Reviewing a card with
//! a [`Difficulty`] grade deterministically yields the next interval, due
//! time, ease and learning stage.  Ease values are held in hundredths (an
//! ease of `2.5` is stored as `250`), so every rule of the scheduler is exact
//! integer arithmetic.  Contracts speak about [`CardV`], the mathematical
//! value of a card.

use vstd::prelude::*;
use vstd::math::{max, min};

use crate::time::{Timestamp, MAX_TIMESTAMP_SECONDS, SECONDS_PER_DAY};
use crate::util::{next_time_after, spec_next_time_after, lemma_next_time_after_bounds};

verus! {

/// Number of learning steps a new card passes through.
pub const LEARNING_STAGES: usize = 2;

/// First learning interval: ten minutes.
pub const INITIAL_INTERVAL_FIRST_SECONDS: u64 = 600;

/// Last learning interval: one day.
pub const INITIAL_INTERVAL_LAST_SECONDS: u64 = 86_400;

/// Cap on any interval (about a thousand years), so that repeated easy
/// grades cannot push a card absurdly far out.
pub const MAX_INTERVAL_SECONDS: u64 = 52_179 * 7 * 86_400;

/// Floor for intervals granted by an easy grade: four days.
pub const MIN_EASY_INTERVAL_SECONDS: u64 = 4 * 86_400;

/// The learning interval of the given stage.
pub open spec fn spec_initial_interval(stage: int) -> int {
    if stage <= 0 {
        INITIAL_INTERVAL_FIRST_SECONDS as int
    } else {
        INITIAL_INTERVAL_LAST_SECONDS as int
    }
}

/// The learning interval of the given stage.
pub fn initial_interval(stage: usize) -> (r: u64)
    ensures
        r == spec_initial_interval(stage as int),
{
    if stage == 0 {
        INITIAL_INTERVAL_FIRST_SECONDS
    } else {
        INITIAL_INTERVAL_LAST_SECONDS
    }
}

/// `x` forced into `[lo, hi]`: `min(max(x, lo), hi)`.
pub open spec fn spec_clamp(x: int, lo: int, hi: int) -> int {
    min(max(x, lo), hi)
}

/// The order reviews are handed out in.
#[derive(Debug, PartialEq, Eq, Copy, Clone, Structural)]
pub enum ReviewOrder {
    /// By the time the card is due, earliest first.
    DueTime,
    /// By the rating of the puzzle, lowest first.
    PuzzleRating,
    /// No promised order.
    Random,
}

impl ReviewOrder {
    /// The recognized configuration values, for error messages.
    pub fn possible_values() -> (r: String)
        ensures
            r@ == "DueTime, PuzzleRating, Random"@,
    {
        "DueTime, PuzzleRating, Random".to_owned()
    }
}

/// The learner's self-graded review outcome.
#[derive(Debug, PartialEq, Eq, Copy, Clone, Structural)]
pub enum Difficulty {
    Again,
    Hard,
    Good,
    Easy,
}

impl Difficulty {
    /// The stored integer code of a grade.
    pub open spec fn spec_to_i64(self) -> i64 {
        match self {
            Difficulty::Again => 0,
            Difficulty::Hard => 1,
            Difficulty::Good => 2,
            Difficulty::Easy => 3,
        }
    }

    /// The stored integer code of a grade.
    pub fn to_i64(&self) -> (r: i64)
        ensures
            r == self.spec_to_i64(),
    {
        match self {
            Difficulty::Again => 0,
            Difficulty::Hard => 1,
            Difficulty::Good => 2,
            Difficulty::Easy => 3,
        }
    }

    /// Decodes a stored grade; exactly the codes 0 through 3 are accepted.
    pub fn from_i64(value: i64) -> (r: Result<Difficulty, String>)
        ensures
            r is Ok <==> 0 <= value <= 3,
            r matches Ok(d) ==> d.spec_to_i64() == value,
    {
        match value {
            0 => Ok(Difficulty::Again),
            1 => Ok(Difficulty::Hard),
            2 => Ok(Difficulty::Good),
            3 => Ok(Difficulty::Easy),
            _ => Err("attempted to convert an invalid value to a difficulty".to_owned()),
        }
    }
}

/// Scheduler configuration.  Ease values are in hundredths.
#[derive(Debug, PartialEq, Eq, Copy, Clone, Structural)]
pub struct SrsConfig {
    /// Ease given to new cards, in hundredths (`250` is an ease of 2.5).
    pub default_ease: u32,
    /// No review may push a card's ease below this, in hundredths.
    pub minimum_ease: u32,
    /// Extra growth factor of easy grades, in hundredths.
    pub easy_bonus: u32,
    /// The day boundary, as seconds past local midnight.  Cards due before
    /// the next boundary count as due today.
    pub day_end_seconds: u32,
    /// The order reviews are handed out in.
    pub review_order: ReviewOrder,
}

impl SrsConfig {
    pub open spec fn wf(self) -> bool {
        &&& self.minimum_ease <= self.default_ease
        &&& self.default_ease + 15 <= u32::MAX
        &&& self.day_end_seconds < SECONDS_PER_DAY
    }

    /// The next day boundary: the first instant strictly after `now` whose
    /// local time of day is `day_end_seconds`.
    pub open spec fn spec_day_end_datetime(self, now: Timestamp) -> Timestamp {
        spec_next_time_after(now, self.day_end_seconds as int)
    }

    /// The next day boundary after `now`.
    pub fn day_end_datetime(&self, now: Timestamp) -> (r: Timestamp)
        requires
            self.wf(),
            now.wf(),
        ensures
            r == self.spec_day_end_datetime(now),
            now.utc_seconds < r.utc_seconds <= now.utc_seconds + SECONDS_PER_DAY,
    {
        next_time_after(now, self.day_end_seconds)
    }
}

impl Default for SrsConfig {
    /// An ease of 2.5, a floor of 1.3, an easy bonus of 1.3, a day boundary
    /// at 04:00, and reviews by due time.
    fn default() -> (r: Self)
        ensures
            r == (SrsConfig {
                default_ease: 250u32,
                minimum_ease: 130u32,
                easy_bonus: 130u32,
                day_end_seconds: 14_400u32,
                review_order: ReviewOrder::DueTime,
            }),
            r.wf(),
    {
        SrsConfig {
            default_ease: 250,
            minimum_ease: 130,
            easy_bonus: 130,
            day_end_seconds: 14_400,
            review_order: ReviewOrder::DueTime,
        }
    }
}

/// The mathematical value of a [`Card`].
pub struct CardV {
    pub id: Seq<char>,
    pub due: Timestamp,
    pub interval: u64,
    pub review_count: u64,
    pub ease: u32,
    pub learning_stage: usize,
    pub srs_config: SrsConfig,
}

/// The scheduling record of one puzzle.
#[derive(Debug, Clone)]
pub struct Card {
    /// The puzzle this card schedules.
    pub id: String,
    /// When the card comes up next.
    pub due: Timestamp,
    /// The current interval, in seconds.
    pub interval: u64,
    /// How many reviews have been applied to this card.
    pub review_count: u64,
    /// The growth factor of good reviews, in hundredths.
    pub ease: u32,
    /// How far through the learning steps the card is; `LEARNING_STAGES`
    /// once it has graduated.
    pub learning_stage: usize,
    /// The configuration the card is scheduled under.
    pub srs_config: SrsConfig,
}

impl View for Card {
    type V = CardV;

    open spec fn view(&self) -> CardV {
        CardV {
            id: self.id@,
            due: self.due,
            interval: self.interval,
            review_count: self.review_count,
            ease: self.ease,
            learning_stage: self.learning_stage,
            srs_config: self.srs_config,
        }
    }
}

impl CardV {
    /// The scheduling fields are in range: the interval is positive and
    /// capped, the ease respects the floor, the stage is a valid step.
    pub open spec fn wf(self) -> bool {
        &&& self.srs_config.wf()
        &&& 1 <= self.interval <= MAX_INTERVAL_SECONDS
        &&& self.srs_config.minimum_ease <= self.ease
        &&& self.learning_stage <= LEARNING_STAGES
    }

    /// A card is in learning while it has not graduated through all the
    /// learning steps and its interval has not outgrown its step.
    pub open spec fn spec_in_learning(self) -> bool {
        self.learning_stage < LEARNING_STAGES
            && self.interval <= spec_initial_interval(self.learning_stage as int)
    }

    /// Interval after an again grade: back to the first learning interval.
    pub open spec fn spec_next_interval_again(self) -> int {
        INITIAL_INTERVAL_FIRST_SECONDS as int
    }

    /// Interval after a hard grade: unchanged, but never shorter than an
    /// again grade would give and never beyond the cap.
    pub open spec fn spec_next_interval_hard(self) -> int {
        spec_clamp(
            self.interval as int,
            self.spec_next_interval_again(),
            MAX_INTERVAL_SECONDS as int,
        )
    }

    /// Interval after a good grade: the next learning step while the card is
    /// learning, and otherwise the interval grown by the ease, clamped below
    /// by the last learning step and a hard grade, and above by the cap.
    pub open spec fn spec_next_interval_good(self) -> int {
        if self.spec_in_learning() && self.learning_stage + 1 < LEARNING_STAGES {
            spec_initial_interval(self.learning_stage + 1)
        } else {
            spec_clamp(
                self.interval * self.ease / 100,
                max(
                    INITIAL_INTERVAL_LAST_SECONDS as int,
                    self.spec_next_interval_hard(),
                ),
                MAX_INTERVAL_SECONDS as int,
            )
        }
    }

    /// Interval after an easy grade: the interval grown by the ease and the
    /// easy bonus, clamped below by the easy floor and a good grade, and
    /// above by the cap.
    pub open spec fn spec_next_interval_easy(self) -> int {
        spec_clamp(
            self.interval * self.ease * self.srs_config.easy_bonus / 10_000,
            max(MIN_EASY_INTERVAL_SECONDS as int, self.spec_next_interval_good()),
            MAX_INTERVAL_SECONDS as int,
        )
    }

    /// The interval a review with the given grade gives this card.
    pub open spec fn spec_next_interval(self, score: Difficulty) -> int {
        match score {
            Difficulty::Again => self.spec_next_interval_again(),
            Difficulty::Hard => self.spec_next_interval_hard(),
            Difficulty::Good => self.spec_next_interval_good(),
            Difficulty::Easy => self.spec_next_interval_easy(),
        }
    }

    /// Every next interval is positive and capped.
    pub proof fn lemma_next_interval_bounds(self, score: Difficulty)
        requires
            self.wf(),
        ensures
            INITIAL_INTERVAL_FIRST_SECONDS <= self.spec_next_interval(score)
                <= MAX_INTERVAL_SECONDS,
    {
    }

    /// Monotonic intervals: a better grade never gives a shorter interval.
    pub proof fn lemma_next_interval_monotonic(self)
        requires
            self.wf(),
        ensures
            self.spec_next_interval(Difficulty::Again)
                <= self.spec_next_interval(Difficulty::Hard),
            self.spec_next_interval(Difficulty::Hard)
                <= self.spec_next_interval(Difficulty::Good),
            self.spec_next_interval(Difficulty::Good)
                <= self.spec_next_interval(Difficulty::Easy),
    {
    }

    /// The learning stage a review with the given grade moves this card to:
    /// again restarts learning; while in learning, good advances one step and
    /// easy graduates at once; a graduated card stays graduated.
    pub open spec fn spec_next_learning_stage(self, score: Difficulty) -> usize {
        if score == Difficulty::Again {
            0usize
        } else if self.spec_in_learning() {
            if score == Difficulty::Easy {
                LEARNING_STAGES
            } else if score == Difficulty::Good {
                (self.learning_stage + 1) as usize
            } else {
                self.learning_stage
            }
        } else {
            self.learning_stage
        }
    }

    /// The ease a review with the given grade leaves on this card: again and
    /// hard lower it, easy raises it, and good lets a depressed ease recover
    /// toward the default without exceeding it; the floor always applies.
    pub open spec fn spec_next_ease(self, score: Difficulty) -> u32 {
        let e = self.ease as int;
        let cfg = self.srs_config;
        let adjusted = if score == Difficulty::Again {
            e - 20
        } else if score == Difficulty::Hard {
            e - 15
        } else if score == Difficulty::Easy {
            e + 15
        } else {
            if e < cfg.default_ease {
                min(cfg.default_ease as int, e + 15)
            } else {
                e
            }
        };
        max(cfg.minimum_ease as int, adjusted) as u32
    }

    /// The card as a review at `time_now` with grade `score` leaves it.
    pub open spec fn spec_review(self, time_now: Timestamp, score: Difficulty) -> CardV {
        CardV {
            id: self.id,
            due: Timestamp {
                utc_seconds: (time_now.utc_seconds + self.spec_next_interval(score)) as i64,
                offset_seconds: time_now.offset_seconds,
            },
            interval: self.spec_next_interval(score) as u64,
            review_count: (self.review_count + 1) as u64,
            ease: self.spec_next_ease(score),
            learning_stage: self.spec_next_learning_stage(score),
            srs_config: self.srs_config,
        }
    }

    /// A card is due once its due time is no later than the next day
    /// boundary: everything due today comes up at once.
    pub open spec fn spec_is_due(self, now: Timestamp) -> bool {
        self.due.utc_seconds <= self.srs_config.spec_day_end_datetime(now).utc_seconds
    }
}

impl Card {
    /// A fresh card, due at `due`, at the first learning step.
    pub fn new(id: &str, due: Timestamp, srs_config: SrsConfig) -> (r: Card)
        requires
            srs_config.wf(),
        ensures
            r@ == (CardV {
                id: id@,
                due,
                interval: INITIAL_INTERVAL_FIRST_SECONDS,
                review_count: 0u64,
                ease: srs_config.default_ease,
                learning_stage: 0usize,
                srs_config,
            }),
            r@.wf(),
    {
        Card {
            id: id.to_owned(),
            due,
            interval: INITIAL_INTERVAL_FIRST_SECONDS,
            review_count: 0,
            ease: srs_config.default_ease,
            learning_stage: 0,
            srs_config,
        }
    }

    /// A copy of this card with the same value.
    pub fn duplicate(&self) -> (r: Card)
        ensures
            r@ == self@,
    {
        Card {
            id: self.id.clone(),
            due: self.due,
            interval: self.interval,
            review_count: self.review_count,
            ease: self.ease,
            learning_stage: self.learning_stage,
            srs_config: self.srs_config,
        }
    }

    /// Whether the card is still in the learning steps.
    pub fn in_learning(&self) -> (r: bool)
        ensures
            r == self@.spec_in_learning(),
    {
        self.learning_stage < LEARNING_STAGES
            && self.interval <= initial_interval(self.learning_stage)
    }

    /// The interval a review with the given grade would give this card.
    pub fn next_interval(&self, score: Difficulty) -> (r: u64)
        requires
            self@.wf(),
        ensures
            r == self@.spec_next_interval(score),
            INITIAL_INTERVAL_FIRST_SECONDS <= r <= MAX_INTERVAL_SECONDS,
    {
        proof {
            self@.lemma_next_interval_bounds(score);
            assert((self.interval as int) * (self.ease as int)
                <= 31_557_859_200 * 4_294_967_295
                && (self.interval as int) * (self.ease as int) * (
            self.srs_config.easy_bonus as int)
                <= 31_557_859_200 * 4_294_967_295 * 4_294_967_295) by (nonlinear_arith)
                requires
                    0 <= self.interval <= MAX_INTERVAL_SECONDS,
                    0 <= self.ease <= u32::MAX,
                    0 <= self.srs_config.easy_bonus <= u32::MAX,
            ;
        }
        let hard: u64 = clamp_u128(
            self.interval as u128,
            INITIAL_INTERVAL_FIRST_SECONDS,
            MAX_INTERVAL_SECONDS,
        );
        if score == Difficulty::Again {
            return INITIAL_INTERVAL_FIRST_SECONDS;
        }
        if score == Difficulty::Hard {
            return hard;
        }
        let good: u64 = if self.in_learning() && self.learning_stage + 1 < LEARNING_STAGES {
            initial_interval(self.learning_stage + 1)
        } else {
            let grown: u128 = (self.interval as u128) * (self.ease as u128) / 100;
            let lo: u64 = max_u64(INITIAL_INTERVAL_LAST_SECONDS, hard);
            clamp_u128(grown, lo, MAX_INTERVAL_SECONDS)
        };
        if score == Difficulty::Good {
            return good;
        }
        let grown: u128 = (self.interval as u128) * (self.ease as u128)
            * (self.srs_config.easy_bonus as u128) / 10_000;
        let lo: u64 = max_u64(MIN_EASY_INTERVAL_SECONDS, good);
        clamp_u128(grown, lo, MAX_INTERVAL_SECONDS)
    }

    /// Applies a review: updates the interval, due time, learning stage,
    /// ease and review count, exactly as [`CardV::spec_review`] states.
    pub fn review(&mut self, time_now: Timestamp, score: Difficulty)
        requires
            old(self)@.wf(),
            time_now.wf(),
            time_now.utc_seconds + MAX_INTERVAL_SECONDS <= MAX_TIMESTAMP_SECONDS,
            old(self).ease + 15 <= u32::MAX,
            old(self).review_count < u64::MAX,
        ensures
            final(self)@ == old(self)@.spec_review(time_now, score),
            final(self)@.wf(),
            final(self).due.wf(),
    {
        proof {
            self@.lemma_next_interval_bounds(score);
        }
        let was_learning: bool = self.in_learning();
        let next: u64 = self.next_interval(score);
        let new_stage: usize = if score == Difficulty::Again {
            0
        } else if was_learning {
            if score == Difficulty::Easy {
                LEARNING_STAGES
            } else if score == Difficulty::Good {
                self.learning_stage + 1
            } else {
                self.learning_stage
            }
        } else {
            self.learning_stage
        };
        let e: i64 = self.ease as i64;
        let adjusted: i64 = if score == Difficulty::Again {
            e - 20
        } else if score == Difficulty::Hard {
            e - 15
        } else if score == Difficulty::Easy {
            e + 15
        } else {
            if e < self.srs_config.default_ease as i64 {
                let recovered: i64 = e + 15;
                if recovered < self.srs_config.default_ease as i64 {
                    recovered
                } else {
                    self.srs_config.default_ease as i64
                }
            } else {
                e
            }
        };
        let floor: i64 = self.srs_config.minimum_ease as i64;
        let new_ease: u32 = if adjusted < floor { floor as u32 } else { adjusted as u32 };
        self.interval = next;
        self.due = time_now.plus_seconds(next);
        self.learning_stage = new_stage;
        self.ease = new_ease;
        self.review_count = self.review_count + 1;
    }

    /// Whether the card is due today.
    pub fn is_due(&self, now: Timestamp) -> (r: bool)
        requires
            self@.wf(),
            now.wf(),
        ensures
            r == self@.spec_is_due(now),
    {
        let day_end = self.srs_config.day_end_datetime(now);
        self.due.utc_seconds <= day_end.utc_seconds
    }
}

/// The larger of two values.
fn max_u64(a: u64, b: u64) -> (r: u64)
    ensures
        r == max(a as int, b as int),
{
    if a > b {
        a
    } else {
        b
    }
}

/// `x` forced into `[lo, hi]`.
fn clamp_u128(x: u128, lo: u64, hi: u64) -> (r: u64)
    requires
        lo <= hi,
    ensures
        r == spec_clamp(x as int, lo as int, hi as int),
{
    if x < lo as u128 {
        lo
    } else if x > hi as u128 {
        hi
    } else {
        x as u64
    }
}

/// Again resets learning: whatever the card held, an again review puts it
/// back at stage zero with the first learning interval.
pub proof fn lemma_again_resets_learning(card: CardV, time_now: Timestamp)
    requires
        card.wf(),
    ensures
        card.spec_review(time_now, Difficulty::Again).learning_stage == 0,
        card.spec_review(time_now, Difficulty::Again).interval
            == INITIAL_INTERVAL_FIRST_SECONDS,
{
}

/// Easy graduates: an easy review of a card in learning graduates it and
/// grants at least the easy floor interval.
pub proof fn lemma_easy_graduates(card: CardV, time_now: Timestamp)
    requires
        card.wf(),
        card.spec_in_learning(),
    ensures
        card.spec_review(time_now, Difficulty::Easy).learning_stage == LEARNING_STAGES,
        card.spec_review(time_now, Difficulty::Easy).interval >= MIN_EASY_INTERVAL_SECONDS,
{
    card.lemma_next_interval_bounds(Difficulty::Easy);
}

/// Good recovers a depressed ease toward the default: strictly up, by at
/// most fifteen hundredths, never beyond the default; an ease at or above
/// the default is left unchanged.
pub proof fn lemma_good_ease_recovery(card: CardV, time_now: Timestamp)
    requires
        card.wf(),
    ensures
        card.ease < card.srs_config.default_ease ==> {
            let new_ease = card.spec_review(time_now, Difficulty::Good).ease;
            card.ease < new_ease
                && new_ease == min(card.srs_config.default_ease as int, card.ease + 15)
        },
        card.ease >= card.srs_config.default_ease ==> card.spec_review(
            time_now,
            Difficulty::Good,
        ).ease == card.ease,
{
}

/// The scheduling state after a whole sequence of reviews, applied in order.
pub open spec fn spec_review_all(card: CardV, steps: Seq<(Timestamp, Difficulty)>) -> CardV
    decreases steps.len(),
{
    if steps.len() == 0 {
        card
    } else {
        spec_review_all(card.spec_review(steps[0].0, steps[0].1), steps.skip(1))
    }
}

/// Ease floor and interval cap: after any sequence of reviews the card's
/// ease is still at least the configured minimum and its interval is still
/// at most the cap (and the card stays well formed).  The bound on the
/// starting ease only keeps the per-review ease bumps inside the ease type.
pub proof fn lemma_review_sequence_bounds(card: CardV, steps: Seq<(Timestamp, Difficulty)>)
    requires
        card.wf(),
        card.ease + 15 * steps.len() <= u32::MAX,
    ensures
        spec_review_all(card, steps).wf(),
        spec_review_all(card, steps).ease >= card.srs_config.minimum_ease,
        spec_review_all(card, steps).interval <= MAX_INTERVAL_SECONDS,
        spec_review_all(card, steps).srs_config == card.srs_config,
    decreases steps.len(),
{
    if steps.len() > 0 {
        let next = card.spec_review(steps[0].0, steps[0].1);
        card.lemma_next_interval_bounds(steps[0].1);
        assert(next.ease <= card.ease + 15);
        lemma_review_sequence_bounds(next, steps.skip(1));
    }
}

/// A card due a moment after `now` is due today, and a card due a moment
/// after the day boundary is not.
pub proof fn lemma_due_boundary(card: CardV, now: Timestamp)
    requires
        card.wf(),
        now.wf(),
    ensures
        card.due.utc_seconds == now.utc_seconds + 1 ==> card.spec_is_due(now),
        card.due.utc_seconds == card.srs_config.spec_day_end_datetime(now).utc_seconds + 1
            ==> !card.spec_is_due(now),
{
    lemma_next_time_after_bounds(now, card.srs_config.day_end_seconds as int);
}

} // verus!
