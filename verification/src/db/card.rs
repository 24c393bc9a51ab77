//! Cards and reviews: the scheduling rows and the queries that drive the
//! review queue, the stats and the forecast.

use vstd::prelude::*;

use crate::db::puzzle::{spec_has_puzzle, string_eq};
use crate::db::{DbV, PuzzleDatabase, Puzzle, PuzzleV};
use crate::srs::{Card, CardV, Difficulty, ReviewOrder, INITIAL_INTERVAL_LAST_SECONDS};
use crate::time::{Timestamp, MAX_TIMESTAMP_SECONDS, SECONDS_PER_DAY};

verus! {

/// The mathematical value of a [`Review`].
pub struct ReviewV {
    pub user_id: Seq<char>,
    pub puzzle_id: Seq<char>,
    pub difficulty: Difficulty,
    pub date: Timestamp,
    pub user_rating: Option<i64>,
}

/// An append-only record of one applied review.  `user_rating` is the
/// user's rating right after the update this review triggered; the rating
/// history is derived from it.
#[derive(Debug, Clone)]
pub struct Review {
    pub user_id: String,
    pub puzzle_id: String,
    pub difficulty: Difficulty,
    pub date: Timestamp,
    pub user_rating: Option<i64>,
}

impl View for Review {
    type V = ReviewV;

    open spec fn view(&self) -> ReviewV {
        ReviewV {
            user_id: self.user_id@,
            puzzle_id: self.puzzle_id@,
            difficulty: self.difficulty,
            date: self.date,
            user_rating: self.user_rating,
        }
    }
}

impl Review {
    /// A copy of this review with the same value.
    pub fn duplicate(&self) -> (r: Review)
        ensures
            r@ == self@,
    {
        Review {
            user_id: self.user_id.clone(),
            puzzle_id: self.puzzle_id.clone(),
            difficulty: self.difficulty,
            date: self.date,
            user_rating: self.user_rating,
        }
    }
}

/// One bar of the review-score histogram: how many reviews with the given
/// grade hit puzzles rated in `[puzzle_rating_min, puzzle_rating_max)`.
#[derive(Debug, PartialEq, Eq, Copy, Clone, Structural)]
pub struct ReviewScoreBucket {
    pub puzzle_rating_min: i64,
    pub puzzle_rating_max: i64,
    pub difficulty: Difficulty,
    pub review_count: u64,
}

/// Some card in `s` carries the given id.
pub open spec fn spec_has_card(s: Seq<CardV>, id: Seq<char>) -> bool {
    exists|i: int| 0 <= i < s.len() && s[i].id == id
}

/// The card ids in `s` are pairwise distinct.
pub open spec fn spec_cards_unique(s: Seq<CardV>) -> bool {
    forall|i: int, j: int| 0 <= i < j < s.len() ==> s[i].id != s[j].id
}

/// `s` with `c` upserted: the card with `c`'s id replaced by `c`, or `c`
/// appended if no card carries its id.
pub open spec fn spec_upsert_card(s: Seq<CardV>, c: CardV) -> Seq<CardV> {
    if spec_has_card(s, c.id) {
        s.update(choose|i: int| 0 <= i < s.len() && s[i].id == c.id, c)
    } else {
        s.push(c)
    }
}

/// The stored puzzle carrying the given id (meaningful when one exists and
/// ids are unique).
pub open spec fn spec_puzzle_with_id(s: Seq<PuzzleV>, id: Seq<char>) -> PuzzleV {
    s[choose|i: int| 0 <= i < s.len() && s[i].puzzle_id == id]
}

/// Under unique ids, any index holding `id` holds exactly
/// `spec_puzzle_with_id(s, id)`.
pub proof fn lemma_puzzle_with_id(s: Seq<PuzzleV>, i: int)
    requires
        crate::db::puzzle::spec_puzzles_unique(s),
        0 <= i < s.len(),
    ensures
        spec_puzzle_with_id(s, s[i].puzzle_id) == s[i],
{
    let id = s[i].puzzle_id;
    assert(spec_has_puzzle(s, id));
    let k = choose|j: int| 0 <= j < s.len() && s[j].puzzle_id == id;
    if k != i {
        assert(s[k].puzzle_id == s[i].puzzle_id);
    }
}

/// The stored card carrying the given id (meaningful when one exists and
/// ids are unique).
pub open spec fn spec_card_with_id(s: Seq<CardV>, id: Seq<char>) -> CardV {
    s[choose|i: int| 0 <= i < s.len() && s[i].id == id]
}

/// Under unique ids, any index holding `id` holds exactly
/// `spec_card_with_id(s, id)`.
pub proof fn lemma_card_with_id(s: Seq<CardV>, i: int)
    requires
        spec_cards_unique(s),
        0 <= i < s.len(),
    ensures
        spec_card_with_id(s, s[i].id) == s[i],
{
    let id = s[i].id;
    assert(spec_has_card(s, id));
    let k = choose|j: int| 0 <= j < s.len() && s[j].id == id;
    if k != i {
        assert(s[k].id == s[i].id);
    }
}

/// Card `i` is a candidate review at `time`: due by `time`, with at least
/// the asked interval, and its puzzle still in the corpus.
pub open spec fn spec_due_candidate(db: DbV, i: int, time: Timestamp, min_interval: int) -> bool {
    &&& 0 <= i < db.cards.len()
    &&& db.cards[i].due.utc_seconds <= time.utc_seconds
    &&& db.cards[i].interval >= min_interval
    &&& spec_has_puzzle(db.puzzles, db.cards[i].id)
}

/// The ordering key is respected: no candidate card beats the returned one.
pub open spec fn spec_best_candidate(
    db: DbV,
    c: CardV,
    p: PuzzleV,
    time: Timestamp,
    min_interval: int,
) -> bool {
    match db.srs_config.review_order {
        ReviewOrder::DueTime => forall|j: int|
            spec_due_candidate(db, j, time, min_interval) ==> c.due.utc_seconds
                <= db.cards[j].due.utc_seconds,
        ReviewOrder::PuzzleRating => forall|j: int|
            spec_due_candidate(db, j, time, min_interval) ==> p.rating <= spec_puzzle_with_id(
                db.puzzles,
                db.cards[j].id,
            ).rating,
        ReviewOrder::Random => true,
    }
}

/// Sum of the stored per-card review counts.
pub open spec fn spec_sum_review_counts(s: Seq<CardV>) -> int
    decreases s.len(),
{
    if s.len() == 0 {
        0
    } else {
        spec_sum_review_counts(s.drop_last()) + s.last().review_count
    }
}

/// A card counts as due by `time` if it is due then outright, or due by
/// `day_end` with an interval past the learning steps (review-ahead never
/// surfaces cards still in learning).
pub open spec fn spec_counts_due_by(c: CardV, time: Timestamp, day_end: Timestamp) -> bool {
    ||| c.due.utc_seconds <= time.utc_seconds
    ||| (c.due.utc_seconds <= day_end.utc_seconds && c.interval
        >= INITIAL_INTERVAL_LAST_SECONDS)
}

/// How many cards count as due by `time` (reviewing ahead until `day_end`).
pub open spec fn spec_count_due_by(s: Seq<CardV>, time: Timestamp, day_end: Timestamp) -> int
    decreases s.len(),
{
    if s.len() == 0 {
        0
    } else {
        spec_count_due_by(s.drop_last(), time, day_end) + if spec_counts_due_by(
            s.last(),
            time,
            day_end,
        ) {
            1int
        } else {
            0int
        }
    }
}

/// Card `c` falls in forecast day `d` after `day_end`: day zero holds
/// everything due before the first boundary (today's backlog included), and
/// day `d` holds the cards due in the `d`-th following twenty-four hours.
pub open spec fn spec_in_forecast_day(c: CardV, day_end: Timestamp, d: int) -> bool {
    if d == 0 {
        c.due.utc_seconds < day_end.utc_seconds + SECONDS_PER_DAY
    } else {
        day_end.utc_seconds + d * SECONDS_PER_DAY <= c.due.utc_seconds
            < day_end.utc_seconds + (d + 1) * SECONDS_PER_DAY
    }
}

/// How many cards fall in forecast day `d`.
pub open spec fn spec_count_forecast_day(s: Seq<CardV>, day_end: Timestamp, d: int) -> int
    decreases s.len(),
{
    if s.len() == 0 {
        0
    } else {
        spec_count_forecast_day(s.drop_last(), day_end, d) + if spec_in_forecast_day(
            s.last(),
            day_end,
            d,
        ) {
            1int
        } else {
            0int
        }
    }
}

/// Upserting keeps the card ids pairwise distinct.
proof fn lemma_upsert_card_unique(s: Seq<CardV>, c: CardV)
    requires
        spec_cards_unique(s),
    ensures
        spec_cards_unique(spec_upsert_card(s, c)),
{
    if spec_has_card(s, c.id) {
        let k = choose|i: int| 0 <= i < s.len() && s[i].id == c.id;
        let t = s.update(k, c);
        assert forall|i: int, j: int| 0 <= i < j < t.len() implies t[i].id != t[j].id by {
            assert(s[i].id != s[j].id);
        }
    }
}

impl PuzzleDatabase {
    /// The stored card for the given puzzle, if one exists.
    pub fn get_card_by_id(&self, puzzle_id: &String) -> (r: Option<Card>)
        ensures
            r is Some <==> spec_has_card(self@.cards, puzzle_id@),
            r matches Some(c) ==> exists|i: int|
                0 <= i < self@.cards.len() && self@.cards[i].id == puzzle_id@ && c@
                    == self@.cards[i],
    {
        let mut i: usize = 0;
        while i < self.cards.len()
            invariant
                i <= self@.cards.len(),
                forall|j: int| 0 <= j < i ==> self@.cards[j].id != puzzle_id@,
            decreases self@.cards.len() - i,
        {
            if string_eq(&self.cards[i].id, puzzle_id) {
                proof {
                    assert(self@.cards[i as int] == self.cards@[i as int]@);
                    assert(self@.cards[i as int].id == puzzle_id@);
                }
                return Some(self.cards[i].duplicate());
            }
            i = i + 1;
        }
        None
    }

    /// Stores the card, replacing any stored card for the same puzzle.
    #[verifier::loop_isolation(false)]
    pub fn update_or_create_card(&mut self, card: &Card)
        requires
            old(self).inv(),
            card@.wf(),
            card.due.wf(),
            card@.srs_config == old(self)@.srs_config,
        ensures
            final(self).inv(),
            final(self)@.cards == spec_upsert_card(old(self)@.cards, card@),
            final(self)@ == (DbV { cards: final(self)@.cards, ..old(self)@ }),
    {
        proof {
            lemma_upsert_card_unique(self@.cards, card@);
        }
        let mut i: usize = 0;
        while i < self.cards.len()
            invariant
                i <= self@.cards.len(),
                forall|j: int| 0 <= j < i ==> self@.cards[j].id != card@.id,
                self@ == old(self)@,
            decreases self@.cards.len() - i,
        {
            if string_eq(&self.cards[i].id, &card.id) {
                proof {
                    assert(self@.cards[i as int] == self.cards@[i as int]@);
                    assert(self@.cards[i as int].id == card@.id);
                    assert(spec_has_card(self@.cards, card@.id));
                    let k = choose|j: int|
                        0 <= j < self@.cards.len() && self@.cards[j].id == card@.id;
                    if k != i {
                        assert(self@.cards[k].id == self@.cards[i as int].id);
                    }
                    assert(k == i);
                }
                let slot = vstd::std_specs::vec::vec_index_mut(&mut self.cards, i);
                *slot = card.duplicate();
                proof {
                    assert(self@.cards =~= spec_upsert_card(old(self)@.cards, card@));
                }
                return;
            }
            i = i + 1;
        }
        proof {
            assert(!spec_has_card(self@.cards, card@.id)) by {
                assert(forall|j: int|
                    0 <= j < self@.cards.len() ==> (#[trigger] self@.cards[j])
                        == self.cards@[j]@ && self@.cards[j].id != card@.id);
            }
        }
        self.cards.push(card.duplicate());
        proof {
            assert(self@.cards =~= spec_upsert_card(old(self)@.cards, card@));
        }
    }

    /// Appends a review record.
    pub fn add_review_for_user(&mut self, review: Review)
        requires
            old(self).inv(),
            review.date.wf(),
        ensures
            final(self).inv(),
            final(self)@.reviews == old(self)@.reviews.push(review@),
            final(self)@ == (DbV { reviews: final(self)@.reviews, ..old(self)@ }),
    {
        let ghost rv = review@;
        self.reviews.push(review);
        proof {
            assert(self@.reviews =~= old(self)@.reviews.push(rv));
        }
    }

    /// How many cards the store holds.
    pub fn get_card_count(&self) -> (r: u64)
        ensures
            r == self@.cards.len(),
    {
        self.cards.len() as u64
    }

    /// The total number of reviews ever applied: the sum of the stored
    /// per-card review counts (saturating at the type's maximum).
    pub fn get_review_count(&self) -> (r: u64)
        ensures
            r == vstd::math::min(spec_sum_review_counts(self@.cards), u64::MAX as int),
    {
        let mut acc: u64 = 0;
        let mut i: usize = 0;
        while i < self.cards.len()
            invariant
                i <= self@.cards.len(),
                acc == vstd::math::min(
                    spec_sum_review_counts(self@.cards.take(i as int)),
                    u64::MAX as int,
                ),
            decreases self@.cards.len() - i,
        {
            proof {
                assert(self@.cards.take(i + 1).drop_last() =~= self@.cards.take(i as int));
                assert(spec_sum_review_counts(self@.cards.take(i as int)) >= 0) by {
                    lemma_sum_review_counts_nonneg(self@.cards.take(i as int));
                }
            }
            let count: u64 = self.cards[i].review_count;
            acc = if u64::MAX - acc < count {
                u64::MAX
            } else {
                acc + count
            };
            i = i + 1;
        }
        proof {
            assert(self@.cards.take(self@.cards.len() as int) =~= self@.cards);
        }
        acc
    }

    /// How many cards count as due by `time`, reviewing ahead until
    /// `day_end` for cards past the learning steps.
    pub fn reviews_due_by(&self, time: Timestamp, day_end: Timestamp) -> (r: u64)
        ensures
            r == spec_count_due_by(self@.cards, time, day_end),
    {
        let mut acc: u64 = 0;
        let mut i: usize = 0;
        while i < self.cards.len()
            invariant
                i <= self@.cards.len(),
                acc == spec_count_due_by(self@.cards.take(i as int), time, day_end),
                acc <= i,
            decreases self@.cards.len() - i,
        {
            proof {
                assert(self@.cards.take(i + 1).drop_last() =~= self@.cards.take(i as int));
            }
            let c = &self.cards[i];
            if c.due.utc_seconds <= time.utc_seconds || (c.due.utc_seconds
                <= day_end.utc_seconds && c.interval >= INITIAL_INTERVAL_LAST_SECONDS) {
                acc = acc + 1;
            }
            i = i + 1;
        }
        proof {
            assert(self@.cards.take(self@.cards.len() as int) =~= self@.cards);
        }
        acc
    }

    /// The next due review under the store's review order: a due candidate
    /// (with review-ahead filtered by `min_interval`) that no other
    /// candidate beats on the ordering key, together with its puzzle.
    pub fn get_next_review_due(&self, time: Timestamp, min_interval: Option<u64>) -> (r: Option<
        (Card, Puzzle),
    >)
        requires
            self.inv(),
        ensures
            r is Some <==> exists|i: int|
                spec_due_candidate(self@, i, time, spec_min_interval(min_interval)),
            r matches Some((c, p)) ==> {
                &&& exists|i: int|
                    spec_due_candidate(self@, i, time, spec_min_interval(min_interval)) && c@
                        == self@.cards[i]
                &&& spec_has_puzzle(self@.puzzles, c@.id)
                &&& p@ == spec_puzzle_with_id(self@.puzzles, c@.id)
                &&& spec_best_candidate(self@, c@, p@, time, spec_min_interval(min_interval))
            },
    {
        let min_interval_seconds: u64 = match min_interval {
            Some(m) => m,
            None => 0,
        };
        let ghost m = spec_min_interval(min_interval);
        let mut best: Option<(Card, Puzzle)> = None;
        let mut i: usize = 0;
        while i < self.cards.len()
            invariant
                self.inv(),
                i <= self@.cards.len(),
                m == min_interval_seconds as int,
                best is None ==> forall|j: int|
                    0 <= j < i ==> !spec_due_candidate(self@, j, time, m),
                best matches Some((c, p)) ==> {
                    &&& exists|n: int|
                        spec_due_candidate(self@, n, time, m) && c@ == self@.cards[n]
                    &&& spec_has_puzzle(self@.puzzles, c@.id)
                    &&& p@ == spec_puzzle_with_id(self@.puzzles, c@.id)
                    &&& match self@.srs_config.review_order {
                        ReviewOrder::DueTime => forall|j: int|
                            0 <= j < i && spec_due_candidate(self@, j, time, m)
                                ==> c@.due.utc_seconds <= self@.cards[j].due.utc_seconds,
                        ReviewOrder::PuzzleRating => forall|j: int|
                            0 <= j < i && spec_due_candidate(self@, j, time, m) ==> p@.rating
                                <= spec_puzzle_with_id(self@.puzzles, self@.cards[j].id).rating,
                        ReviewOrder::Random => true,
                    }
                },
            decreases self@.cards.len() - i,
        {
            let c = &self.cards[i];
            if c.due.utc_seconds <= time.utc_seconds && c.interval >= min_interval_seconds {
                match self.get_puzzle_by_id(&c.id) {
                    Some(p) => {
                        proof {
                            assert(spec_due_candidate(self@, i as int, time, m));
                            let n = choose|n: int|
                                0 <= n < self@.puzzles.len() && self@.puzzles[n].puzzle_id == c@.id
                                    && p@ == self@.puzzles[n];
                            lemma_puzzle_with_id(self@.puzzles, n);
                            assert(p@ == spec_puzzle_with_id(self@.puzzles, c@.id));
                        }
                        let take_it: bool = match &best {
                            None => true,
                            Some((bc, bp)) => match self.srs_config.review_order {
                                ReviewOrder::DueTime => c.due.utc_seconds < bc.due.utc_seconds,
                                ReviewOrder::PuzzleRating => p.rating < bp.rating,
                                ReviewOrder::Random => false,
                            },
                        };
                        if take_it {
                            best = Some((c.duplicate(), p));
                        }
                    },
                    None => {},
                }
            }
            i = i + 1;
        }
        best
    }

    /// The earliest due time among the cards due by `time` whose puzzle is
    /// still in the corpus — the minimum, whatever review order is
    /// configured.
    pub fn earliest_due_candidate(&self, time: Timestamp) -> (r: Option<Timestamp>)
        requires
            self.inv(),
        ensures
            r is Some <==> exists|i: int| spec_due_candidate(self@, i, time, 0),
            r matches Some(t) ==> {
                &&& exists|i: int|
                    spec_due_candidate(self@, i, time, 0) && self@.cards[i].due == t
                &&& forall|j: int|
                    spec_due_candidate(self@, j, time, 0) ==> t.utc_seconds
                        <= self@.cards[j].due.utc_seconds
            },
    {
        let mut best: Option<Timestamp> = None;
        let mut i: usize = 0;
        while i < self.cards.len()
            invariant
                self.inv(),
                i <= self@.cards.len(),
                best is None ==> forall|j: int|
                    0 <= j < i ==> !spec_due_candidate(self@, j, time, 0),
                best matches Some(t) ==> {
                    &&& exists|n: int|
                        spec_due_candidate(self@, n, time, 0) && self@.cards[n].due == t
                    &&& forall|j: int|
                        0 <= j < i && spec_due_candidate(self@, j, time, 0) ==> t.utc_seconds
                            <= self@.cards[j].due.utc_seconds
                },
            decreases self@.cards.len() - i,
        {
            let c = &self.cards[i];
            if c.due.utc_seconds <= time.utc_seconds {
                match self.get_puzzle_by_id(&c.id) {
                    Some(_) => {
                        proof {
                            assert(spec_due_candidate(self@, i as int, time, 0));
                        }
                        let replace: bool = match &best {
                            None => true,
                            Some(t) => c.due.utc_seconds < t.utc_seconds,
                        };
                        if replace {
                            best = Some(c.due);
                        }
                    },
                    None => {},
                }
            }
            i = i + 1;
        }
        best
    }

    /// The review forecast: for each of `length_days` days after `day_end`,
    /// how many cards come due that day (day zero also holds today's
    /// backlog).
    pub fn get_review_forecast(&self, day_end: Timestamp, length_days: u64) -> (r: Vec<u64>)
        requires
            self.inv(),
            0 <= day_end.utc_seconds <= MAX_TIMESTAMP_SECONDS + SECONDS_PER_DAY,
            length_days <= 3650,
        ensures
            r@.len() == length_days,
            forall|d: int|
                0 <= d < length_days ==> r@[d] == spec_count_forecast_day(
                    self@.cards,
                    day_end,
                    d,
                ),
    {
        let mut r: Vec<u64> = Vec::new();
        let mut d: u64 = 0;
        while d < length_days
            invariant
                self.inv(),
                d <= length_days,
                length_days <= 3650,
                0 <= day_end.utc_seconds <= MAX_TIMESTAMP_SECONDS + SECONDS_PER_DAY,
                r@.len() == d,
                forall|e: int|
                    0 <= e < d ==> r@[e] == spec_count_forecast_day(self@.cards, day_end, e),
            decreases length_days - d,
        {
            let lo: i64 = day_end.utc_seconds + (d as i64) * SECONDS_PER_DAY;
            let hi: i64 = lo + SECONDS_PER_DAY;
            let mut acc: u64 = 0;
            let mut i: usize = 0;
            while i < self.cards.len()
                invariant
                    i <= self@.cards.len(),
                    acc == spec_count_forecast_day(self@.cards.take(i as int), day_end, d as int),
                    acc <= i,
                    lo == day_end.utc_seconds + d * SECONDS_PER_DAY,
                    hi == day_end.utc_seconds + (d + 1) * SECONDS_PER_DAY,
                decreases self@.cards.len() - i,
            {
                proof {
                    assert(self@.cards.take(i + 1).drop_last() =~= self@.cards.take(i as int));
                }
                let due: i64 = self.cards[i].due.utc_seconds;
                let in_day: bool = if d == 0 {
                    due < hi
                } else {
                    lo <= due && due < hi
                };
                if in_day {
                    acc = acc + 1;
                }
                i = i + 1;
            }
            proof {
                assert(self@.cards.take(self@.cards.len() as int) =~= self@.cards);
            }
            r.push(acc);
            d = d + 1;
        }
        r
    }
}

/// The hour a timestamp falls in, counted from the epoch: the rating
/// history is grouped by calendar day and hour, which is exactly a grouping
/// by this index.
pub open spec fn spec_hour_bucket(t: Timestamp) -> int {
    t.utc_seconds / 3600
}

/// The review belongs to the user and carries a rating snapshot.
pub open spec fn spec_history_relevant(r: ReviewV, user_id: Seq<char>) -> bool {
    r.user_id == user_id && r.user_rating is Some
}

/// The rating snapshot a relevant review carries.
pub open spec fn spec_snapshot(r: ReviewV) -> int {
    r.user_rating.unwrap() as int
}

/// The history entry is backed by a review of this user: same date, and the
/// entry's rating is that review's snapshot.
pub open spec fn spec_history_entry_ok(
    reviews: Seq<ReviewV>,
    user_id: Seq<char>,
    e: (Timestamp, i64),
) -> bool {
    exists|r: int|
        0 <= r < reviews.len() && spec_history_relevant(#[trigger] reviews[r], user_id)
            && reviews[r].date == e.0 && reviews[r].user_rating == Some(e.1)
}

/// The hour buckets of the entries are strictly increasing.
pub open spec fn spec_history_sorted(s: Seq<(Timestamp, i64)>) -> bool {
    forall|a: int, b: int|
        0 <= a < b < s.len() ==> spec_hour_bucket(s[a].0) < spec_hour_bucket(s[b].0)
}

/// Every entry's date lies in the supported range.
pub open spec fn spec_history_in_range(s: Seq<(Timestamp, i64)>) -> bool {
    forall|k: int| 0 <= k < s.len() ==> 0 <= (#[trigger] s[k]).0.utc_seconds <= MAX_TIMESTAMP_SECONDS
}

/// Every new entry is either the folded pair (and then no replaced entry
/// exceeded the snapshot) or an untouched old entry outside the snapshot's
/// hour or at least as high.
pub open spec fn spec_history_step_entries(
    before: Seq<(Timestamp, i64)>,
    after: Seq<(Timestamp, i64)>,
    date: Timestamp,
    snapshot: i64,
) -> bool {
    forall|k: int|
        0 <= k < after.len() ==> {
            ||| ((#[trigger] after[k]) == (date, snapshot) && forall|k0: int|
                0 <= k0 < before.len() && spec_hour_bucket((#[trigger] before[k0]).0)
                    == spec_hour_bucket(date) ==> before[k0].1 <= snapshot)
            ||| (exists|k0: int|
                0 <= k0 < before.len() && after[k] == before[k0] && (spec_hour_bucket(
                    before[k0].0,
                ) != spec_hour_bucket(date) || snapshot <= before[k0].1))
        }
}

/// Every old entry's hour is still present, at least as high as before.
pub open spec fn spec_history_step_covers(
    before: Seq<(Timestamp, i64)>,
    after: Seq<(Timestamp, i64)>,
) -> bool {
    forall|k0: int|
        0 <= k0 < before.len() ==> exists|k: int|
            0 <= k < after.len() && spec_hour_bucket(#[trigger] after[k].0) == spec_hour_bucket(
                (#[trigger] before[k0]).0,
            ) && before[k0].1 <= after[k].1
}

/// The index where the given hour belongs in a bucket-sorted history.
#[verifier::loop_isolation(false)]
fn history_position(entries: &Vec<(Timestamp, i64)>, target: u64) -> (q: usize)
    requires
        spec_history_sorted(entries@),
        spec_history_in_range(entries@),
    ensures
        q <= entries@.len(),
        forall|x: int| 0 <= x < q ==> spec_hour_bucket((#[trigger] entries@[x]).0) < target,
        q < entries@.len() ==> spec_hour_bucket(entries@[q as int].0) >= target,
{
    let mut q: usize = 0;
    while q < entries.len() && (entries[q].0.utc_seconds as u64) / 3600 < target
        invariant
            q <= entries@.len(),
            forall|x: int| 0 <= x < q ==> spec_hour_bucket((#[trigger] entries@[x]).0) < target,
        decreases entries@.len() - q,
    {
        q = q + 1;
    }
    q
}

/// Raises the entry at `q` (the one of the snapshot's hour) to the snapshot,
/// when the snapshot is higher.
#[verifier::loop_isolation(false)]
#[verifier::rlimit(100)]
fn history_update_at(entries: &mut Vec<(Timestamp, i64)>, q: usize, date: Timestamp, snapshot: i64)
    requires
        spec_history_sorted(old(entries)@),
        spec_history_in_range(old(entries)@),
        0 <= date.utc_seconds <= MAX_TIMESTAMP_SECONDS,
        q < old(entries)@.len(),
        spec_hour_bucket(old(entries)@[q as int].0) == spec_hour_bucket(date),
        forall|x: int|
            0 <= x < q ==> spec_hour_bucket((#[trigger] old(entries)@[x]).0) < spec_hour_bucket(
                date,
            ),
    ensures
        spec_history_sorted(final(entries)@),
        spec_history_in_range(final(entries)@),
        final(entries)@.len() == old(entries)@.len(),
        spec_hour_bucket(final(entries)@[q as int].0) == spec_hour_bucket(date),
        spec_history_step_entries(old(entries)@, final(entries)@, date, snapshot),
        spec_history_step_covers(old(entries)@, final(entries)@),
{
    let ghost before = entries@;
    proof {
        assert forall|k0: int|
            0 <= k0 < before.len() && spec_hour_bucket((#[trigger] before[k0]).0)
                == spec_hour_bucket(date) implies k0 == q by {
            if k0 < q {
                assert(spec_hour_bucket(before[k0].0) < spec_hour_bucket(date));
            } else if k0 > q {
                assert(spec_hour_bucket(before[q as int].0) < spec_hour_bucket(before[k0].0));
            }
        }
    }
    if snapshot > entries[q].1 {
        let slot = vstd::std_specs::vec::vec_index_mut(entries, q);
        *slot = (date, snapshot);
        proof {
            assert(entries@ =~= before.update(q as int, (date, snapshot)));
            assert forall|a: int, b: int| 0 <= a < b < entries@.len()
                implies spec_hour_bucket(entries@[a].0) < spec_hour_bucket(entries@[b].0) by {
                assert(spec_hour_bucket(before[a].0) < spec_hour_bucket(before[b].0));
            }
            assert forall|k0: int| 0 <= k0 < before.len() implies exists|k: int|
                0 <= k < entries@.len() && spec_hour_bucket(#[trigger] entries@[k].0)
                    == spec_hour_bucket((#[trigger] before[k0]).0) && before[k0].1
                    <= entries@[k].1 by {
                if k0 == q {
                    assert(spec_hour_bucket(entries@[q as int].0) == spec_hour_bucket(
                        before[q as int].0,
                    ));
                } else {
                    assert(entries@[k0] == before[k0]);
                }
            }
        }
    } else {
        proof {
            assert forall|k: int| 0 <= k < entries@.len() implies exists|k0: int|
                0 <= k0 < before.len() && (#[trigger] entries@[k]) == before[k0] && (
            spec_hour_bucket(before[k0].0) != spec_hour_bucket(date) || snapshot
                <= before[k0].1) by {
                if k != q {
                    assert(spec_hour_bucket(entries@[k].0) != spec_hour_bucket(date));
                }
                assert(entries@[k] == before[k]);
            }
            assert forall|k0: int| 0 <= k0 < before.len() implies exists|k: int|
                0 <= k < entries@.len() && spec_hour_bucket(#[trigger] entries@[k].0)
                    == spec_hour_bucket((#[trigger] before[k0]).0) && before[k0].1
                    <= entries@[k].1 by {
                assert(entries@[k0] == before[k0]);
            }
        }
    }
}

/// Inserts the snapshot's hour as a fresh entry at position `q`.
#[verifier::loop_isolation(false)]
#[verifier::rlimit(100)]
fn history_insert_at(entries: &mut Vec<(Timestamp, i64)>, q: usize, date: Timestamp, snapshot: i64)
    requires
        spec_history_sorted(old(entries)@),
        spec_history_in_range(old(entries)@),
        0 <= date.utc_seconds <= MAX_TIMESTAMP_SECONDS,
        q <= old(entries)@.len(),
        q < old(entries)@.len() ==> spec_hour_bucket(old(entries)@[q as int].0)
            > spec_hour_bucket(date),
        forall|x: int|
            0 <= x < q ==> spec_hour_bucket((#[trigger] old(entries)@[x]).0) < spec_hour_bucket(
                date,
            ),
    ensures
        spec_history_sorted(final(entries)@),
        spec_history_in_range(final(entries)@),
        final(entries)@.len() == old(entries)@.len() + 1,
        spec_hour_bucket(final(entries)@[q as int].0) == spec_hour_bucket(date),
        spec_history_step_entries(old(entries)@, final(entries)@, date, snapshot),
        spec_history_step_covers(old(entries)@, final(entries)@),
{
    let ghost before = entries@;
    proof {
        assert forall|k0: int|
            0 <= k0 < before.len() implies spec_hour_bucket((#[trigger] before[k0]).0)
                != spec_hour_bucket(date) by {
            if k0 > q {
                assert(spec_hour_bucket(before[q as int].0) < spec_hour_bucket(before[k0].0));
            }
        }
    }
    entries.insert(q, (date, snapshot));
    proof {
        before.insert_ensures(q as int, (date, snapshot));
        assert forall|a: int, b: int| 0 <= a < b < entries@.len()
            implies spec_hour_bucket(entries@[a].0) < spec_hour_bucket(entries@[b].0) by {
            if b < q {
                assert(entries@[a] == before[a] && entries@[b] == before[b]);
            } else if a > q {
                assert(entries@[a] == before[a - 1] && entries@[b] == before[b - 1]);
            } else if a < q && b == q {
                assert(entries@[a] == before[a]);
            } else if a < q && b > q {
                assert(entries@[a] == before[a] && entries@[b] == before[b - 1]);
                assert(spec_hour_bucket(before[b - 1].0) > spec_hour_bucket(date));
            } else if a == q && b > q {
                assert(entries@[b] == before[b - 1]);
            }
        }
        assert forall|k0: int| 0 <= k0 < before.len() implies exists|k: int|
            0 <= k < entries@.len() && spec_hour_bucket(#[trigger] entries@[k].0)
                == spec_hour_bucket((#[trigger] before[k0]).0) && before[k0].1
                <= entries@[k].1 by {
            if k0 < q {
                assert(entries@[k0] == before[k0]);
            } else {
                assert(entries@[k0 + 1] == before[k0]);
            }
        }
        assert forall|k: int| 0 <= k < entries@.len() && k != q implies exists|k0: int|
            0 <= k0 < before.len() && (#[trigger] entries@[k]) == before[k0] && (
        spec_hour_bucket(before[k0].0) != spec_hour_bucket(date) || snapshot
            <= before[k0].1) by {
            if k < q {
                assert(entries@[k] == before[k]);
            } else {
                assert(entries@[k] == before[k - 1]);
            }
        }
        assert(entries@[q as int] == (date, snapshot));
    }
}

/// Folds one dated snapshot into a bucket-sorted history: the snapshot's
/// hour gets an entry, an existing entry of that hour is raised (never
/// lowered) to the snapshot, and every other entry survives unchanged.
fn upsert_history_entry(entries: &mut Vec<(Timestamp, i64)>, date: Timestamp, snapshot: i64)
    requires
        spec_history_sorted(old(entries)@),
        spec_history_in_range(old(entries)@),
        0 <= date.utc_seconds <= MAX_TIMESTAMP_SECONDS,
    ensures
        spec_history_sorted(final(entries)@),
        spec_history_in_range(final(entries)@),
        exists|q: int|
            0 <= q < final(entries)@.len() && spec_hour_bucket(
                (#[trigger] final(entries)@[q]).0,
            ) == spec_hour_bucket(date),
        spec_history_step_entries(old(entries)@, final(entries)@, date, snapshot),
        spec_history_step_covers(old(entries)@, final(entries)@),
{
    let target: u64 = (date.utc_seconds as u64) / 3600;
    proof {
        assert(target == spec_hour_bucket(date));
    }
    let q = history_position(entries, target);
    if q < entries.len() && (entries[q].0.utc_seconds as u64) / 3600 == target {
        history_update_at(entries, q, date, snapshot);
        proof {
            assert(spec_hour_bucket(entries@[q as int].0) == spec_hour_bucket(date));
        }
    } else {
        history_insert_at(entries, q, date, snapshot);
        proof {
            assert(spec_hour_bucket(entries@[q as int].0) == spec_hour_bucket(date));
        }
    }
}

impl PuzzleDatabase {
    /// The user's rating history: for each hour in which a review with a
    /// rating snapshot fell, the highest snapshot of that hour (dated by a
    /// review that reached it), in chronological order, with the user's
    /// current rating at `now` appended as the final point.
    #[verifier::loop_isolation(false)]
    #[verifier::rlimit(100)]
    pub fn get_user_rating_history(&self, user_id: &String, now: Timestamp) -> (h: Vec<
        (Timestamp, i64),
    >)
        requires
            self.inv(),
        ensures
            h@.len() >= 1,
            h@[h@.len() - 1] == (now, self@.user.rating.rating),
            forall|a: int, b: int|
                0 <= a < b < h@.len() - 1 ==> spec_hour_bucket(h@[a].0) < spec_hour_bucket(
                    h@[b].0,
                ),
            forall|k: int|
                0 <= k < h@.len() - 1 ==> spec_history_entry_ok(
                    self@.reviews,
                    user_id@,
                    #[trigger] h@[k],
                ),
            forall|k: int, r: int|
                0 <= k < h@.len() - 1 && 0 <= r < self@.reviews.len() && spec_history_relevant(
                    #[trigger] self@.reviews[r],
                    user_id@,
                ) && spec_hour_bucket(self@.reviews[r].date) == spec_hour_bucket(
                    (#[trigger] h@[k]).0,
                ) ==> spec_snapshot(self@.reviews[r]) <= h@[k].1,
            forall|r: int|
                0 <= r < self@.reviews.len() && spec_history_relevant(
                    #[trigger] self@.reviews[r],
                    user_id@,
                ) ==> exists|k: int|
                    0 <= k < h@.len() - 1 && spec_hour_bucket(h@[k].0) == spec_hour_bucket(
                        self@.reviews[r].date,
                    ),
    {
        let mut entries: Vec<(Timestamp, i64)> = Vec::new();
        let mut t: usize = 0;
        while t < self.reviews.len()
            invariant
                t <= self@.reviews.len(),
                spec_history_sorted(entries@),
                spec_history_in_range(entries@),
                forall|k: int|
                    0 <= k < entries@.len() ==> spec_history_entry_ok(
                        self@.reviews.take(t as int),
                        user_id@,
                        #[trigger] entries@[k],
                    ),
                forall|k: int, r: int|
                    0 <= k < entries@.len() && 0 <= r < t && spec_history_relevant(
                        #[trigger] self@.reviews[r],
                        user_id@,
                    ) && spec_hour_bucket(self@.reviews[r].date) == spec_hour_bucket(
                        (#[trigger] entries@[k]).0,
                    ) ==> spec_snapshot(self@.reviews[r]) <= entries@[k].1,
                forall|r: int|
                    0 <= r < t && spec_history_relevant(#[trigger] self@.reviews[r], user_id@)
                        ==> exists|k: int|
                        0 <= k < entries@.len() && spec_hour_bucket(entries@[k].0)
                            == spec_hour_bucket(self@.reviews[r].date),
            decreases self@.reviews.len() - t,
        {
            proof {
                assert(self@.reviews.take(t + 1).drop_last() =~= self@.reviews.take(t as int));
                assert(self@.reviews.take(t + 1)[t as int] == self@.reviews[t as int]);
            }
            let rv = &self.reviews[t];
            let relevant: bool = string_eq(&rv.user_id, user_id) && rv.user_rating.is_some();
            if relevant {
                let snapshot: i64 = match rv.user_rating {
                    Some(v) => v,
                    None => 0,
                };
                proof {
                    assert(self@.reviews[t as int].date.wf());
                }
                let ghost before = entries@;
                upsert_history_entry(&mut entries, rv.date, snapshot);
                proof {
                    let reviews = self@.reviews;
                    let uid = user_id@;
                    let date = rv@.date;
                    assert(spec_history_relevant(reviews[t as int], uid));
                    assert(spec_snapshot(reviews[t as int]) == snapshot);
                    assert forall|k: int| 0 <= k < entries@.len() implies spec_history_entry_ok(
                        reviews.take(t + 1),
                        uid,
                        #[trigger] entries@[k],
                    ) by {
                        if entries@[k] == (date, snapshot) {
                            assert(reviews.take(t + 1)[t as int] == reviews[t as int]);
                        } else {
                            let k0 = choose|k0: int|
                                0 <= k0 < before.len() && entries@[k] == before[k0] && (
                                spec_hour_bucket(before[k0].0) != spec_hour_bucket(date)
                                    || snapshot <= before[k0].1);
                            assert(spec_history_entry_ok(reviews.take(t as int), uid, before[k0]));
                        }
                    }
                    assert forall|k: int, r: int|
                        0 <= k < entries@.len() && 0 <= r < t + 1 && spec_history_relevant(
                            #[trigger] reviews[r],
                            uid,
                        ) && spec_hour_bucket(reviews[r].date) == spec_hour_bucket(
                            (#[trigger] entries@[k]).0,
                        ) implies spec_snapshot(reviews[r]) <= entries@[k].1 by {
                        if entries@[k] == (date, snapshot) && spec_hour_bucket(entries@[k].0)
                            == spec_hour_bucket(date) {
                            if r < t {
                                let k1 = choose|k1: int|
                                    0 <= k1 < before.len() && spec_hour_bucket(before[k1].0)
                                        == spec_hour_bucket(reviews[r].date);
                                assert(spec_snapshot(reviews[r]) <= before[k1].1);
                                assert(before[k1].1 <= snapshot);
                            }
                        } else {
                            let k0 = choose|k0: int|
                                0 <= k0 < before.len() && entries@[k] == before[k0] && (
                                spec_hour_bucket(before[k0].0) != spec_hour_bucket(date)
                                    || snapshot <= before[k0].1);
                            if r == t {
                                assert(snapshot <= before[k0].1);
                            } else {
                                assert(spec_snapshot(reviews[r]) <= before[k0].1);
                            }
                        }
                    }
                    assert forall|r: int|
                        0 <= r < t + 1 && spec_history_relevant(#[trigger] reviews[r], uid)
                            implies exists|k: int|
                            0 <= k < entries@.len() && spec_hour_bucket(entries@[k].0)
                                == spec_hour_bucket(reviews[r].date) by {
                        if r < t {
                            let k0 = choose|k0: int|
                                0 <= k0 < before.len() && spec_hour_bucket(before[k0].0)
                                    == spec_hour_bucket(reviews[r].date);
                            let k = choose|k: int|
                                0 <= k < entries@.len() && spec_hour_bucket(
                                    #[trigger] entries@[k].0,
                                ) == spec_hour_bucket(before[k0].0) && before[k0].1
                                    <= entries@[k].1;
                            assert(spec_hour_bucket(entries@[k].0) == spec_hour_bucket(
                                reviews[r].date,
                            ));
                        }
                    }
                }
            } else {
                proof {
                    assert(!spec_history_relevant(self@.reviews[t as int], user_id@));
                }
            }
            t = t + 1;
        }
        proof {
            assert(self@.reviews.take(self@.reviews.len() as int) =~= self@.reviews);
        }
        let ghost grouped = entries@;
        entries.push((now, self.user.rating.rating));
        proof {
            assert(forall|k: int| 0 <= k < grouped.len() ==> entries@[k] == grouped[k]);
            assert forall|r: int|
                0 <= r < self@.reviews.len() && spec_history_relevant(
                    #[trigger] self@.reviews[r],
                    user_id@,
                ) implies exists|k: int|
                0 <= k < entries@.len() - 1 && spec_hour_bucket(entries@[k].0)
                    == spec_hour_bucket(self@.reviews[r].date) by {
                let k0 = choose|k: int|
                    0 <= k < grouped.len() && spec_hour_bucket(grouped[k].0) == spec_hour_bucket(
                        self@.reviews[r].date,
                    );
                assert(entries@[k0] == grouped[k0]);
            }
        }
        entries
    }
}

/// The review belongs to the user and its puzzle is still in the corpus.
pub open spec fn spec_histogram_relevant(r: ReviewV, user_id: Seq<char>, puzzles: Seq<PuzzleV>) -> bool {
    r.user_id == user_id && spec_has_puzzle(puzzles, r.puzzle_id)
}

/// The lower edge of the rating bucket of width `span` that `rating` falls
/// in: the largest multiple-of-`span` point not above it.
pub open spec fn spec_bucket_floor(rating: int, span: int) -> int {
    rating - rating % span
}

/// The review falls in the histogram bar keyed by `(min_rating, difficulty)`.
pub open spec fn spec_in_histogram_bar(
    r: ReviewV,
    user_id: Seq<char>,
    puzzles: Seq<PuzzleV>,
    span: int,
    min_rating: int,
    difficulty: Difficulty,
) -> bool {
    &&& spec_histogram_relevant(r, user_id, puzzles)
    &&& spec_bucket_floor(spec_puzzle_with_id(puzzles, r.puzzle_id).rating as int, span)
        == min_rating
    &&& r.difficulty == difficulty
}

/// How many reviews fall in the histogram bar keyed by
/// `(min_rating, difficulty)`.
pub open spec fn spec_count_histogram_bar(
    reviews: Seq<ReviewV>,
    user_id: Seq<char>,
    puzzles: Seq<PuzzleV>,
    span: int,
    min_rating: int,
    difficulty: Difficulty,
) -> int
    decreases reviews.len(),
{
    if reviews.len() == 0 {
        0
    } else {
        spec_count_histogram_bar(reviews.drop_last(), user_id, puzzles, span, min_rating, difficulty)
            + if spec_in_histogram_bar(
            reviews.last(),
            user_id,
            puzzles,
            span,
            min_rating,
            difficulty,
        ) {
            1int
        } else {
            0int
        }
    }
}

/// Bar `a` comes before bar `b`: lower rating window, or the same window
/// with a lower grade code.
pub open spec fn spec_bar_lt(a: ReviewScoreBucket, b: ReviewScoreBucket) -> bool {
    ||| a.puzzle_rating_min < b.puzzle_rating_min
    ||| (a.puzzle_rating_min == b.puzzle_rating_min && a.difficulty.spec_to_i64()
        < b.difficulty.spec_to_i64())
}

/// The bars are strictly ordered (so their keys are pairwise distinct).
pub open spec fn spec_bars_sorted(s: Seq<ReviewScoreBucket>) -> bool {
    forall|a: int, b: int| 0 <= a < b < s.len() ==> spec_bar_lt(s[a], s[b])
}

/// Whether bar `e` carries the key `(min_rating, difficulty)`.
pub open spec fn spec_bar_has_key(e: ReviewScoreBucket, min_rating: int, difficulty: Difficulty) -> bool {
    e.puzzle_rating_min == min_rating && e.difficulty == difficulty
}

/// The index where the key `(min_rating, difficulty)` belongs among sorted
/// bars.
#[verifier::loop_isolation(false)]
fn bar_position(entries: &Vec<ReviewScoreBucket>, min_rating: i64, difficulty: Difficulty) -> (q: usize)
    requires
        spec_bars_sorted(entries@),
    ensures
        q <= entries@.len(),
        forall|x: int|
            0 <= x < q ==> spec_bar_lt(
                #[trigger] entries@[x],
                (ReviewScoreBucket {
                    puzzle_rating_min: min_rating,
                    puzzle_rating_max: min_rating,
                    difficulty,
                    review_count: 0u64,
                }),
            ),
        q < entries@.len() ==> !spec_bar_lt(
            entries@[q as int],
            (ReviewScoreBucket {
                puzzle_rating_min: min_rating,
                puzzle_rating_max: min_rating,
                difficulty,
                review_count: 0u64,
            }),
        ),
{
    let code: i64 = difficulty.to_i64();
    let mut q: usize = 0;
    while q < entries.len() && (entries[q].puzzle_rating_min < min_rating || (
    entries[q].puzzle_rating_min == min_rating && entries[q].difficulty.to_i64() < code))
        invariant
            q <= entries@.len(),
            forall|x: int|
                0 <= x < q ==> spec_bar_lt(
                    #[trigger] entries@[x],
                    (ReviewScoreBucket {
                        puzzle_rating_min: min_rating,
                        puzzle_rating_max: min_rating,
                        difficulty,
                        review_count: 0u64,
                    }),
                ),
        decreases entries@.len() - q,
    {
        q = q + 1;
    }
    q
}

/// Equal grade codes mean equal grades.
pub proof fn lemma_difficulty_code_injective(a: Difficulty, b: Difficulty)
    requires
        a.spec_to_i64() == b.spec_to_i64(),
    ensures
        a == b,
{
}

/// Inserts a fresh bar with count one at position `q`.
#[verifier::loop_isolation(false)]
#[verifier::rlimit(100)]
fn bar_insert_at(
    entries: &mut Vec<ReviewScoreBucket>,
    q: usize,
    min_rating: i64,
    difficulty: Difficulty,
    span: i64,
)
    requires
        spec_bars_sorted(old(entries)@),
        1 <= span,
        min_rating + span <= i64::MAX,
        q <= old(entries)@.len(),
        forall|x: int|
            0 <= x < q ==> spec_bar_lt(
                #[trigger] old(entries)@[x],
                (ReviewScoreBucket {
                    puzzle_rating_min: min_rating,
                    puzzle_rating_max: min_rating,
                    difficulty,
                    review_count: 0u64,
                }),
            ),
        forall|x: int|
            q <= x < old(entries)@.len() ==> spec_bar_lt(
                (ReviewScoreBucket {
                    puzzle_rating_min: min_rating,
                    puzzle_rating_max: min_rating,
                    difficulty,
                    review_count: 0u64,
                }),
                #[trigger] old(entries)@[x],
            ),
    ensures
        spec_bars_sorted(final(entries)@),
        exists|k: int|
            0 <= k < final(entries)@.len() && spec_bar_has_key(
                #[trigger] final(entries)@[k],
                min_rating as int,
                difficulty,
            ) && final(entries)@[k].puzzle_rating_max == min_rating + span
                && final(entries)@[k].review_count == 1,
        forall|k: int|
            0 <= k < final(entries)@.len() && !spec_bar_has_key(
                #[trigger] final(entries)@[k],
                min_rating as int,
                difficulty,
            ) ==> exists|k0: int|
                0 <= k0 < old(entries)@.len() && final(entries)@[k] == old(entries)@[k0]
                    && !spec_bar_has_key(old(entries)@[k0], min_rating as int, difficulty),
        forall|k0: int|
            0 <= k0 < old(entries)@.len() && !spec_bar_has_key(
                #[trigger] old(entries)@[k0],
                min_rating as int,
                difficulty,
            ) ==> exists|k: int|
                0 <= k < final(entries)@.len() && final(entries)@[k] == old(entries)@[k0],
{
    let ghost key = ReviewScoreBucket {
        puzzle_rating_min: min_rating,
        puzzle_rating_max: min_rating,
        difficulty,
        review_count: 0u64,
    };
    let ghost before = entries@;
    entries.insert(
        q,
        ReviewScoreBucket {
            puzzle_rating_min: min_rating,
            puzzle_rating_max: min_rating + span,
            difficulty,
            review_count: 1,
        },
    );
    proof {
        before.insert_ensures(
            q as int,
            (ReviewScoreBucket {
                puzzle_rating_min: min_rating,
                puzzle_rating_max: (min_rating + span) as i64,
                difficulty,
                review_count: 1u64,
            }),
        );
        assert(spec_bar_has_key(entries@[q as int], min_rating as int, difficulty));
        assert forall|a: int, b: int| 0 <= a < b < entries@.len()
            implies spec_bar_lt(entries@[a], entries@[b]) by {
            if b < q {
                assert(entries@[a] == before[a] && entries@[b] == before[b]);
            } else if a > q {
                assert(entries@[a] == before[a - 1] && entries@[b] == before[b - 1]);
            } else if a < q && b == q {
                assert(entries@[a] == before[a]);
                assert(spec_bar_lt(before[a], key));
            } else if a < q && b > q {
                assert(entries@[a] == before[a] && entries@[b] == before[b - 1]);
                assert(spec_bar_lt(before[a], before[b - 1]));
            } else if a == q && b > q {
                assert(entries@[b] == before[b - 1]);
                assert(spec_bar_lt(key, before[b - 1]));
            }
        }
        assert forall|k: int|
            0 <= k < entries@.len() && !spec_bar_has_key(
            #[trigger] entries@[k],
            min_rating as int,
            difficulty,
        ) implies exists|k0: int|
            0 <= k0 < before.len() && entries@[k] == before[k0] && !spec_bar_has_key(
                before[k0],
                min_rating as int,
                difficulty,
            ) by {
            if k < q {
                assert(entries@[k] == before[k]);
            } else if k > q {
                assert(entries@[k] == before[k - 1]);
            }
        }
        assert forall|k0: int|
            0 <= k0 < before.len() && !spec_bar_has_key(
            #[trigger] before[k0],
            min_rating as int,
            difficulty,
        ) implies exists|k: int| 0 <= k < entries@.len() && entries@[k] == before[k0] by {
            if k0 < q {
                assert(entries@[k0] == before[k0]);
            } else {
                assert(entries@[k0 + 1] == before[k0]);
            }
        }
    }
}

/// Counts one review into the bar keyed by `(min_rating, difficulty)`:
/// an existing bar's count goes up by one, a missing bar appears with count
/// one, and every other bar survives unchanged.
#[verifier::loop_isolation(false)]
#[verifier::rlimit(100)]
fn fold_histogram_entry(
    entries: &mut Vec<ReviewScoreBucket>,
    min_rating: i64,
    difficulty: Difficulty,
    span: i64,
) -> (fresh: bool)
    requires
        spec_bars_sorted(old(entries)@),
        1 <= span,
        min_rating + span <= i64::MAX,
        forall|k: int| 0 <= k < old(entries)@.len() ==> (#[trigger] old(entries)@[k]).review_count < u64::MAX,
    ensures
        spec_bars_sorted(final(entries)@),
        exists|q: int|
            0 <= q < final(entries)@.len() && spec_bar_has_key(
                #[trigger] final(entries)@[q],
                min_rating as int,
                difficulty,
            ) && final(entries)@[q].puzzle_rating_max == min_rating + span && (
            fresh ==> final(entries)@[q].review_count == 1) && (!fresh ==> exists|k0: int|
                0 <= k0 < old(entries)@.len() && spec_bar_has_key(
                    #[trigger] old(entries)@[k0],
                    min_rating as int,
                    difficulty,
                ) && final(entries)@[q].review_count == old(entries)@[k0].review_count + 1),
        fresh ==> !(exists|k0: int|
            0 <= k0 < old(entries)@.len() && spec_bar_has_key(
                #[trigger] old(entries)@[k0],
                min_rating as int,
                difficulty,
            )),
        forall|k: int|
            0 <= k < final(entries)@.len() && !spec_bar_has_key(
                #[trigger] final(entries)@[k],
                min_rating as int,
                difficulty,
            ) ==> exists|k0: int|
                0 <= k0 < old(entries)@.len() && final(entries)@[k] == old(entries)@[k0]
                    && !spec_bar_has_key(old(entries)@[k0], min_rating as int, difficulty),
        forall|k0: int|
            0 <= k0 < old(entries)@.len() && !spec_bar_has_key(
                #[trigger] old(entries)@[k0],
                min_rating as int,
                difficulty,
            ) ==> exists|k: int|
                0 <= k < final(entries)@.len() && final(entries)@[k] == old(entries)@[k0],
{
    let ghost key = ReviewScoreBucket {
        puzzle_rating_min: min_rating,
        puzzle_rating_max: min_rating,
        difficulty,
        review_count: 0u64,
    };
    let q = bar_position(entries, min_rating, difficulty);
    let ghost before = entries@;
    proof {
        assert forall|k0: int|
            0 <= k0 < before.len() && k0 != q implies !spec_bar_has_key(
            #[trigger] before[k0],
            min_rating as int,
            difficulty,
        ) by {
            if k0 < q {
                assert(spec_bar_lt(before[k0], key));
                if before[k0].difficulty == difficulty {
                }
            } else {
                assert(spec_bar_lt(before[q as int], before[k0]));
                assert(!spec_bar_lt(before[q as int], key));
            }
        }
    }
    if q < entries.len() && entries[q].puzzle_rating_min == min_rating
        && entries[q].difficulty.to_i64() == difficulty.to_i64() {
        proof {
            lemma_difficulty_code_injective(before[q as int].difficulty, difficulty);
            assert(spec_bar_has_key(before[q as int], min_rating as int, difficulty));
        }
        let count: u64 = entries[q].review_count;
        let slot = vstd::std_specs::vec::vec_index_mut(entries, q);
        *slot = ReviewScoreBucket {
            puzzle_rating_min: min_rating,
            puzzle_rating_max: min_rating + span,
            difficulty,
            review_count: count + 1,
        };
        proof {
            assert(entries@ =~= before.update(
                q as int,
                (ReviewScoreBucket {
                    puzzle_rating_min: min_rating,
                    puzzle_rating_max: (min_rating + span) as i64,
                    difficulty,
                    review_count: (count + 1) as u64,
                }),
            ));
            assert forall|a: int, b: int| 0 <= a < b < entries@.len()
                implies spec_bar_lt(entries@[a], entries@[b]) by {
                assert(spec_bar_lt(before[a], before[b]));
            }
            assert forall|k0: int|
                0 <= k0 < before.len() && !spec_bar_has_key(
                #[trigger] before[k0],
                min_rating as int,
                difficulty,
            ) implies exists|k: int|
                0 <= k < entries@.len() && entries@[k] == before[k0] by {
                assert(entries@[k0] == before[k0]);
            }
        }
        false
    } else {
        proof {
            if q < before.len() {
                assert(!spec_bar_lt(before[q as int], key));
                if before[q as int].puzzle_rating_min == min_rating
                    && before[q as int].difficulty.spec_to_i64() == difficulty.spec_to_i64() {
                    lemma_difficulty_code_injective(before[q as int].difficulty, difficulty);
                    assert(false);
                }
                assert(spec_bar_lt(key, before[q as int]));
            }
            assert forall|x: int|
                q <= x < before.len() implies spec_bar_lt(key, #[trigger] before[x]) by {
                if x > q {
                    assert(spec_bar_lt(before[q as int], before[x]));
                }
            }
        }
        bar_insert_at(entries, q, min_rating, difficulty, span);
        true
    }
}

impl PuzzleDatabase {
    /// The review-score histogram: one bar per rating window of width
    /// `rating_bucket_span` and grade, counting the user's reviews of
    /// still-existing puzzles, sorted by window and grade.  The bounds on
    /// the corpus ratings only keep the window arithmetic inside the rating
    /// type.
    #[verifier::loop_isolation(false)]
    #[verifier::rlimit(100)]
    pub fn get_review_score_history(&self, user_id: &String, rating_bucket_span: i64) -> (h: Vec<
        ReviewScoreBucket,
    >)
        requires
            self.inv(),
            1 <= rating_bucket_span,
            forall|i: int|
                0 <= i < self@.puzzles.len() ==> i64::MIN + rating_bucket_span <= (
                #[trigger] self@.puzzles[i]).rating && self@.puzzles[i].rating
                    + rating_bucket_span <= i64::MAX,
        ensures
            spec_bars_sorted(h@),
            forall|k: int|
                0 <= k < h@.len() ==> (#[trigger] h@[k]).puzzle_rating_max == h@[
                    k
                ].puzzle_rating_min + rating_bucket_span && h@[k].review_count
                    == spec_count_histogram_bar(
                    self@.reviews,
                    user_id@,
                    self@.puzzles,
                    rating_bucket_span as int,
                    h@[k].puzzle_rating_min as int,
                    h@[k].difficulty,
                ) && h@[k].review_count > 0,
            forall|r: int|
                0 <= r < self@.reviews.len() && spec_histogram_relevant(
                    #[trigger] self@.reviews[r],
                    user_id@,
                    self@.puzzles,
                ) ==> exists|k: int|
                    0 <= k < h@.len() && spec_bar_has_key(
                        #[trigger] h@[k],
                        spec_bucket_floor(
                            spec_puzzle_with_id(
                                self@.puzzles,
                                self@.reviews[r].puzzle_id,
                            ).rating as int,
                            rating_bucket_span as int,
                        ),
                        self@.reviews[r].difficulty,
                    ),
    {
        let span = rating_bucket_span;
        let mut h: Vec<ReviewScoreBucket> = Vec::new();
        let mut t: usize = 0;
        while t < self.reviews.len()
            invariant
                t <= self@.reviews.len(),
                spec_bars_sorted(h@),
                forall|k: int|
                    0 <= k < h@.len() ==> (#[trigger] h@[k]).puzzle_rating_max == h@[
                        k
                    ].puzzle_rating_min + span && h@[k].review_count == spec_count_histogram_bar(
                        self@.reviews.take(t as int),
                        user_id@,
                        self@.puzzles,
                        span as int,
                        h@[k].puzzle_rating_min as int,
                        h@[k].difficulty,
                    ) && 0 < h@[k].review_count <= t,
                forall|r: int|
                    0 <= r < t && spec_histogram_relevant(
                        #[trigger] self@.reviews[r],
                        user_id@,
                        self@.puzzles,
                    ) ==> exists|k: int|
                        0 <= k < h@.len() && spec_bar_has_key(
                            #[trigger] h@[k],
                            spec_bucket_floor(
                                spec_puzzle_with_id(
                                    self@.puzzles,
                                    self@.reviews[r].puzzle_id,
                                ).rating as int,
                                span as int,
                            ),
                            self@.reviews[r].difficulty,
                        ),
            decreases self@.reviews.len() - t,
        {
            proof {
                assert(self@.reviews.take(t + 1).drop_last() =~= self@.reviews.take(t as int));
                assert(self@.reviews.take(t + 1)[t as int] == self@.reviews[t as int]);
            }
            let rv = &self.reviews[t];
            let mut relevant: bool = false;
            let mut rating: i64 = 0;
            if string_eq(&rv.user_id, user_id) {
                match self.get_puzzle_by_id(&rv.puzzle_id) {
                    Some(p) => {
                        relevant = true;
                        rating = p.rating;
                        proof {
                            let n = choose|n: int|
                                0 <= n < self@.puzzles.len() && self@.puzzles[n].puzzle_id
                                    == rv@.puzzle_id && p@ == self@.puzzles[n];
                            lemma_puzzle_with_id(self@.puzzles, n);
                            assert(spec_puzzle_with_id(self@.puzzles, rv@.puzzle_id).rating
                                == rating);
                        }
                    },
                    None => {},
                }
            }
            if relevant {
                let rem: i64 = match rating.checked_rem_euclid(span) {
                    Some(m) => m,
                    None => 0,
                };
                let min_rating: i64 = rating - rem;
                proof {
                    assert(spec_has_puzzle(self@.puzzles, rv@.puzzle_id));
                    assert(min_rating == spec_bucket_floor(rating as int, span as int));
                    assert(spec_in_histogram_bar(
                        self@.reviews[t as int],
                        user_id@,
                        self@.puzzles,
                        span as int,
                        min_rating as int,
                        rv@.difficulty,
                    ));
                }
                let ghost before = h@;
                let fresh = fold_histogram_entry(&mut h, min_rating, rv.difficulty, span);
                proof {
                    let reviews = self@.reviews;
                    let uid = user_id@;
                    let puzzles = self@.puzzles;
                    let target_min = min_rating as int;
                    let target_diff = rv@.difficulty;
                    if fresh {
                        lemma_count_histogram_bar_zero_from_bars(
                            reviews.take(t as int),
                            uid,
                            puzzles,
                            span as int,
                            target_min,
                            target_diff,
                            before,
                        );
                    }
                    assert forall|k: int| 0 <= k < h@.len() implies (#[trigger] h@[
                        k
                    ]).puzzle_rating_max == h@[k].puzzle_rating_min + span && h@[k].review_count
                        == spec_count_histogram_bar(
                        reviews.take(t + 1),
                        uid,
                        puzzles,
                        span as int,
                        h@[k].puzzle_rating_min as int,
                        h@[k].difficulty,
                    ) && 0 < h@[k].review_count <= t + 1 by {
                        if spec_bar_has_key(h@[k], target_min, target_diff) {
                            let q = choose|q: int|
                                0 <= q < h@.len() && spec_bar_has_key(
                                    #[trigger] h@[q],
                                    target_min,
                                    target_diff,
                                ) && h@[q].puzzle_rating_max == min_rating + span && (fresh
                                    ==> h@[q].review_count == 1) && (!fresh ==> exists|k0: int|
                                    0 <= k0 < before.len() && spec_bar_has_key(
                                        #[trigger] before[k0],
                                        target_min,
                                        target_diff,
                                    ) && h@[q].review_count == before[k0].review_count + 1);
                            assert(k == q) by {
                                if k != q {
                                    if k < q {
                                        assert(spec_bar_lt(h@[k], h@[q]));
                                    } else {
                                        assert(spec_bar_lt(h@[q], h@[k]));
                                    }
                                    lemma_difficulty_code_injective(
                                        h@[k].difficulty,
                                        h@[q].difficulty,
                                    );
                                }
                            }
                        } else {
                            let k0 = choose|k0: int|
                                0 <= k0 < before.len() && h@[k] == before[k0]
                                    && !spec_bar_has_key(before[k0], target_min, target_diff);
                            assert(!spec_in_histogram_bar(
                                reviews[t as int],
                                uid,
                                puzzles,
                                span as int,
                                h@[k].puzzle_rating_min as int,
                                h@[k].difficulty,
                            ));
                        }
                    }
                    assert forall|r: int|
                        0 <= r < t + 1 && spec_histogram_relevant(
                            #[trigger] reviews[r],
                            uid,
                            puzzles,
                        ) implies exists|k: int|
                        0 <= k < h@.len() && spec_bar_has_key(
                            #[trigger] h@[k],
                            spec_bucket_floor(
                                spec_puzzle_with_id(puzzles, reviews[r].puzzle_id).rating as int,
                                span as int,
                            ),
                            reviews[r].difficulty,
                        ) by {
                        let rmin = spec_bucket_floor(
                            spec_puzzle_with_id(puzzles, reviews[r].puzzle_id).rating as int,
                            span as int,
                        );
                        if r == t {
                        } else {
                            let k0 = choose|k0: int|
                                0 <= k0 < before.len() && spec_bar_has_key(
                                    #[trigger] before[k0],
                                    rmin,
                                    reviews[r].difficulty,
                                );
                            if spec_bar_has_key(before[k0], target_min, target_diff) {
                            } else {
                                let k = choose|k: int|
                                    0 <= k < h@.len() && h@[k] == before[k0];
                                assert(spec_bar_has_key(h@[k], rmin, reviews[r].difficulty));
                            }
                        }
                    }
                }
            } else {
                proof {
                    assert(!spec_histogram_relevant(self@.reviews[t as int], user_id@, self@.puzzles));
                    assert forall|k: int| 0 <= k < h@.len() implies (#[trigger] h@[
                        k
                    ]).review_count == spec_count_histogram_bar(
                        self@.reviews.take(t + 1),
                        user_id@,
                        self@.puzzles,
                        span as int,
                        h@[k].puzzle_rating_min as int,
                        h@[k].difficulty,
                    ) by {
                        assert(!spec_in_histogram_bar(
                            self@.reviews[t as int],
                            user_id@,
                            self@.puzzles,
                            span as int,
                            h@[k].puzzle_rating_min as int,
                            h@[k].difficulty,
                        ));
                    }
                }
            }
            t = t + 1;
        }
        proof {
            assert(self@.reviews.take(self@.reviews.len() as int) =~= self@.reviews);
        }
        h
    }
}

/// A bar absent from a complete histogram counts no reviews: if every
/// relevant review's bar is present and the asked key is not, the asked
/// bar's count is zero.
proof fn lemma_count_histogram_bar_zero_from_bars(
    reviews: Seq<ReviewV>,
    user_id: Seq<char>,
    puzzles: Seq<PuzzleV>,
    span: int,
    min_rating: int,
    difficulty: Difficulty,
    bars: Seq<ReviewScoreBucket>,
)
    requires
        forall|r: int|
            0 <= r < reviews.len() && spec_histogram_relevant(
                #[trigger] reviews[r],
                user_id,
                puzzles,
            ) ==> exists|k: int|
                0 <= k < bars.len() && spec_bar_has_key(
                    #[trigger] bars[k],
                    spec_bucket_floor(
                        spec_puzzle_with_id(puzzles, reviews[r].puzzle_id).rating as int,
                        span,
                    ),
                    reviews[r].difficulty,
                ),
        !(exists|k: int|
            0 <= k < bars.len() && spec_bar_has_key(#[trigger] bars[k], min_rating, difficulty)),
    ensures
        spec_count_histogram_bar(reviews, user_id, puzzles, span, min_rating, difficulty) == 0,
    decreases reviews.len(),
{
    if reviews.len() > 0 {
        assert forall|r: int|
            0 <= r < reviews.drop_last().len() && spec_histogram_relevant(
                #[trigger] reviews.drop_last()[r],
                user_id,
                puzzles,
            ) implies exists|k: int|
            0 <= k < bars.len() && spec_bar_has_key(
                #[trigger] bars[k],
                spec_bucket_floor(
                    spec_puzzle_with_id(puzzles, reviews.drop_last()[r].puzzle_id).rating as int,
                    span,
                ),
                reviews.drop_last()[r].difficulty,
            ) by {
            assert(reviews.drop_last()[r] == reviews[r]);
        }
        lemma_count_histogram_bar_zero_from_bars(
            reviews.drop_last(),
            user_id,
            puzzles,
            span,
            min_rating,
            difficulty,
            bars,
        );
        if spec_in_histogram_bar(reviews.last(), user_id, puzzles, span, min_rating, difficulty) {
            let rl = reviews.len() - 1;
            assert(spec_histogram_relevant(reviews[rl], user_id, puzzles));
            let k = choose|k: int|
                0 <= k < bars.len() && spec_bar_has_key(
                    #[trigger] bars[k],
                    spec_bucket_floor(
                        spec_puzzle_with_id(puzzles, reviews[rl].puzzle_id).rating as int,
                        span,
                    ),
                    reviews[rl].difficulty,
                );
            assert(false);
        }
    }
}

/// The interval floor a query asks for; no floor means zero.
pub open spec fn spec_min_interval(min_interval: Option<u64>) -> int {
    match min_interval {
        Some(m) => m as int,
        None => 0,
    }
}

/// The sum of review counts is never negative.
proof fn lemma_sum_review_counts_nonneg(s: Seq<CardV>)
    ensures
        spec_sum_review_counts(s) >= 0,
    decreases s.len(),
{
    if s.len() > 0 {
        lemma_sum_review_counts_nonneg(s.drop_last());
    }
}

} // verus!
