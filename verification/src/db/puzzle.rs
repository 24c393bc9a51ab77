//! The puzzle corpus: immutable tactical exercises and the queries over them.

use vstd::prelude::*;

use crate::db::PuzzleDatabase;

verus! {

/// The mathematical value of a [`Puzzle`].
pub struct PuzzleV {
    pub puzzle_id: Seq<char>,
    pub fen: Seq<char>,
    pub moves: Seq<char>,
    pub rating: i64,
    pub rating_deviation: i64,
    pub popularity: i64,
    pub number_of_plays: i64,
    pub themes: Seq<Seq<char>>,
    pub game_url: Seq<char>,
    pub opening_tags: Seq<Seq<char>>,
}

/// One immutable tactical exercise.
#[derive(Debug, Clone)]
pub struct Puzzle {
    pub puzzle_id: String,
    /// The starting position.
    pub fen: String,
    /// The solution move sequence.
    pub moves: String,
    pub rating: i64,
    pub rating_deviation: i64,
    pub popularity: i64,
    pub number_of_plays: i64,
    pub themes: Vec<String>,
    pub game_url: String,
    pub opening_tags: Vec<String>,
}

impl View for Puzzle {
    type V = PuzzleV;

    open spec fn view(&self) -> PuzzleV {
        PuzzleV {
            puzzle_id: self.puzzle_id@,
            fen: self.fen@,
            moves: self.moves@,
            rating: self.rating,
            rating_deviation: self.rating_deviation,
            popularity: self.popularity,
            number_of_plays: self.number_of_plays,
            themes: self.themes@.map_values(|s: String| s@),
            game_url: self.game_url@,
            opening_tags: self.opening_tags@.map_values(|s: String| s@),
        }
    }
}

/// A copy of a vector of strings, with the same values.
fn clone_string_vec(v: &Vec<String>) -> (r: Vec<String>)
    ensures
        r@.map_values(|s: String| s@) == v@.map_values(|s: String| s@),
{
    let mut r: Vec<String> = Vec::new();
    let mut i: usize = 0;
    while i < v.len()
        invariant
            i <= v.len(),
            r@.len() == i,
            forall|j: int| 0 <= j < i ==> r@[j]@ == v@[j]@,
        decreases v.len() - i,
    {
        r.push(v[i].clone());
        i = i + 1;
    }
    proof {
        assert(r@.map_values(|s: String| s@) =~= v@.map_values(|s: String| s@));
    }
    r
}

impl Puzzle {
    /// A copy of this puzzle with the same value.
    pub fn duplicate(&self) -> (r: Puzzle)
        ensures
            r@ == self@,
    {
        Puzzle {
            puzzle_id: self.puzzle_id.clone(),
            fen: self.fen.clone(),
            moves: self.moves.clone(),
            rating: self.rating,
            rating_deviation: self.rating_deviation,
            popularity: self.popularity,
            number_of_plays: self.number_of_plays,
            themes: clone_string_vec(&self.themes),
            game_url: self.game_url.clone(),
            opening_tags: clone_string_vec(&self.opening_tags),
        }
    }
}

/// The lowest rating among the puzzles of `s`, or zero for an empty corpus.
pub open spec fn spec_min_puzzle_rating(s: Seq<PuzzleV>) -> int
    decreases s.len(),
{
    if s.len() == 0 {
        0
    } else if s.len() == 1 {
        s[0].rating as int
    } else {
        vstd::math::min(spec_min_puzzle_rating(s.drop_last()), s.last().rating as int)
    }
}

/// The highest rating among the puzzles of `s`, or zero for an empty corpus.
pub open spec fn spec_max_puzzle_rating(s: Seq<PuzzleV>) -> int
    decreases s.len(),
{
    if s.len() == 0 {
        0
    } else if s.len() == 1 {
        s[0].rating as int
    } else {
        vstd::math::max(spec_max_puzzle_rating(s.drop_last()), s.last().rating as int)
    }
}

/// Some puzzle in `s` carries the given id.
pub open spec fn spec_has_puzzle(s: Seq<PuzzleV>, id: Seq<char>) -> bool {
    exists|i: int| 0 <= i < s.len() && s[i].puzzle_id == id
}

/// The puzzle ids in `s` are pairwise distinct.
pub open spec fn spec_puzzles_unique(s: Seq<PuzzleV>) -> bool {
    forall|i: int, j: int|
        0 <= i < j < s.len() ==> s[i].puzzle_id != s[j].puzzle_id
}

/// `s` with `p` upserted: the puzzle with `p`'s id replaced by `p`, or `p`
/// appended if no puzzle carries its id.
pub open spec fn spec_upsert_puzzle(s: Seq<PuzzleV>, p: PuzzleV) -> Seq<PuzzleV> {
    if spec_has_puzzle(s, p.puzzle_id) {
        s.update(choose|i: int| 0 <= i < s.len() && s[i].puzzle_id == p.puzzle_id, p)
    } else {
        s.push(p)
    }
}

/// `s` with every puzzle of `batch` upserted, in order.
pub open spec fn spec_upsert_puzzles(s: Seq<PuzzleV>, batch: Seq<PuzzleV>) -> Seq<PuzzleV>
    decreases batch.len(),
{
    if batch.len() == 0 {
        s
    } else {
        spec_upsert_puzzles(spec_upsert_puzzle(s, batch[0]), batch.skip(1))
    }
}

/// Upserting a batch one puzzle at a time, front to back, folds as expected.
pub proof fn lemma_upsert_puzzles_snoc(s: Seq<PuzzleV>, batch: Seq<PuzzleV>, p: PuzzleV)
    ensures
        spec_upsert_puzzles(s, batch.push(p))
            == spec_upsert_puzzle(spec_upsert_puzzles(s, batch), p),
    decreases batch.len(),
{
    let bp = batch.push(p);
    if batch.len() == 0 {
        assert(bp[0] == p);
        assert(bp.skip(1) =~= Seq::<PuzzleV>::empty());
        assert(spec_upsert_puzzles(s, bp) == spec_upsert_puzzles(
            spec_upsert_puzzle(s, p),
            bp.skip(1),
        ));
        assert(spec_upsert_puzzles(spec_upsert_puzzle(s, p), bp.skip(1)) == spec_upsert_puzzle(
            s,
            p,
        ));
        assert(spec_upsert_puzzles(s, batch) == s);
    } else {
        assert(bp[0] == batch[0]);
        assert(bp.skip(1) =~= batch.skip(1).push(p));
        lemma_upsert_puzzles_snoc(spec_upsert_puzzle(s, batch[0]), batch.skip(1), p);
        assert(spec_upsert_puzzles(s, bp) == spec_upsert_puzzles(
            spec_upsert_puzzle(s, bp[0]),
            bp.skip(1),
        ));
        assert(spec_upsert_puzzles(s, batch) == spec_upsert_puzzles(
            spec_upsert_puzzle(s, batch[0]),
            batch.skip(1),
        ));
    }
}

/// Upserting keeps the puzzle ids pairwise distinct.
pub proof fn lemma_upsert_puzzle_unique(s: Seq<PuzzleV>, p: PuzzleV)
    requires
        spec_puzzles_unique(s),
    ensures
        spec_puzzles_unique(spec_upsert_puzzle(s, p)),
{
    if spec_has_puzzle(s, p.puzzle_id) {
        let k = choose|i: int| 0 <= i < s.len() && s[i].puzzle_id == p.puzzle_id;
        let t = s.update(k, p);
        assert forall|i: int, j: int| 0 <= i < j < t.len() implies t[i].puzzle_id
            != t[j].puzzle_id by {
            assert(s[i].puzzle_id != s[j].puzzle_id);
        }
    }
}

impl PuzzleDatabase {
    /// How many puzzles the corpus holds.
    pub fn get_puzzle_count(&self) -> (r: usize)
        ensures
            r == self@.puzzles.len(),
    {
        self.puzzles.len()
    }

    /// The lowest rating in the corpus, or zero when the corpus is empty.
    pub fn get_min_puzzle_rating(&self) -> (r: i64)
        ensures
            r == spec_min_puzzle_rating(self@.puzzles),
            self@.puzzles.len() > 0 ==> {
                &&& exists|i: int| 0 <= i < self@.puzzles.len() && self@.puzzles[i].rating == r
                &&& forall|i: int| 0 <= i < self@.puzzles.len() ==> r <= self@.puzzles[i].rating
            },
    {
        if self.puzzles.len() == 0 {
            return 0;
        }
        let mut best: i64 = self.puzzles[0].rating;
        proof {
            assert(self@.puzzles[0] == self.puzzles@[0]@);
            assert(self@.puzzles.take(1) =~= seq![self@.puzzles[0]]);
        }
        let mut i: usize = 1;
        while i < self.puzzles.len()
            invariant
                1 <= i <= self@.puzzles.len(),
                best == spec_min_puzzle_rating(self@.puzzles.take(i as int)),
                exists|j: int| 0 <= j < i && (#[trigger] self@.puzzles[j]).rating == best,
                forall|j: int| 0 <= j < i ==> best <= (#[trigger] self@.puzzles[j]).rating,
            decreases self@.puzzles.len() - i,
        {
            proof {
                assert(self@.puzzles[i as int] == self.puzzles@[i as int]@);
                assert(self@.puzzles.take(i + 1).drop_last() =~= self@.puzzles.take(i as int));
                assert(self@.puzzles.take(i + 1).last() == self@.puzzles[i as int]);
            }
            if self.puzzles[i].rating < best {
                best = self.puzzles[i].rating;
            }
            i = i + 1;
        }
        proof {
            assert(self@.puzzles.take(self@.puzzles.len() as int) =~= self@.puzzles);
        }
        best
    }

    /// The highest rating in the corpus, or zero when the corpus is empty.
    pub fn get_max_puzzle_rating(&self) -> (r: i64)
        ensures
            r == spec_max_puzzle_rating(self@.puzzles),
            self@.puzzles.len() > 0 ==> {
                &&& exists|i: int| 0 <= i < self@.puzzles.len() && self@.puzzles[i].rating == r
                &&& forall|i: int| 0 <= i < self@.puzzles.len() ==> self@.puzzles[i].rating <= r
            },
    {
        if self.puzzles.len() == 0 {
            return 0;
        }
        let mut best: i64 = self.puzzles[0].rating;
        proof {
            assert(self@.puzzles[0] == self.puzzles@[0]@);
            assert(self@.puzzles.take(1) =~= seq![self@.puzzles[0]]);
        }
        let mut i: usize = 1;
        while i < self.puzzles.len()
            invariant
                1 <= i <= self@.puzzles.len(),
                best == spec_max_puzzle_rating(self@.puzzles.take(i as int)),
                exists|j: int| 0 <= j < i && (#[trigger] self@.puzzles[j]).rating == best,
                forall|j: int| 0 <= j < i ==> (#[trigger] self@.puzzles[j]).rating <= best,
            decreases self@.puzzles.len() - i,
        {
            proof {
                assert(self@.puzzles[i as int] == self.puzzles@[i as int]@);
                assert(self@.puzzles.take(i + 1).drop_last() =~= self@.puzzles.take(i as int));
                assert(self@.puzzles.take(i + 1).last() == self@.puzzles[i as int]);
            }
            if self.puzzles[i].rating > best {
                best = self.puzzles[i].rating;
            }
            i = i + 1;
        }
        proof {
            assert(self@.puzzles.take(self@.puzzles.len() as int) =~= self@.puzzles);
        }
        best
    }

    /// Adds a batch of puzzles to the corpus; a puzzle whose id is already
    /// present replaces the stored one.
    pub fn add_puzzles(&mut self, puzzles: &Vec<Puzzle>)
        requires
            old(self).inv(),
        ensures
            final(self).inv(),
            final(self)@.puzzles == spec_upsert_puzzles(
                old(self)@.puzzles,
                puzzles@.map_values(|p: Puzzle| p@),
            ),
            final(self)@.cards == old(self)@.cards,
            final(self)@.reviews == old(self)@.reviews,
            final(self)@.user == old(self)@.user,
            final(self)@.skipped_puzzles == old(self)@.skipped_puzzles,
            final(self)@.app_data == old(self)@.app_data,
            final(self)@.srs_config == old(self)@.srs_config,
    {
        let ghost batch = puzzles@.map_values(|p: Puzzle| p@);
        let mut i: usize = 0;
        while i < puzzles.len()
            invariant
                i <= puzzles.len(),
                batch == puzzles@.map_values(|p: Puzzle| p@),
                self.inv(),
                self@.puzzles == spec_upsert_puzzles(old(self)@.puzzles, batch.take(i as int)),
                self@.cards == old(self)@.cards,
                self@.reviews == old(self)@.reviews,
                self@.user == old(self)@.user,
                self@.skipped_puzzles == old(self)@.skipped_puzzles,
                self@.app_data == old(self)@.app_data,
                self@.srs_config == old(self)@.srs_config,
            decreases puzzles.len() - i,
        {
            proof {
                assert(batch.take(i as int).push(batch[i as int]) =~= batch.take(i + 1));
                lemma_upsert_puzzles_snoc(old(self)@.puzzles, batch.take(i as int), batch[i as int]);
            }
            self.upsert_puzzle(&puzzles[i]);
            i = i + 1;
        }
        proof {
            assert(batch.take(puzzles@.len() as int) =~= batch);
        }
    }

    /// Stores one puzzle, replacing any stored puzzle with the same id.
    #[verifier::loop_isolation(false)]
    fn upsert_puzzle(&mut self, puzzle: &Puzzle)
        requires
            old(self).inv(),
        ensures
            final(self).inv(),
            final(self)@.puzzles == spec_upsert_puzzle(old(self)@.puzzles, puzzle@),
            final(self)@.cards == old(self)@.cards,
            final(self)@.reviews == old(self)@.reviews,
            final(self)@.user == old(self)@.user,
            final(self)@.skipped_puzzles == old(self)@.skipped_puzzles,
            final(self)@.app_data == old(self)@.app_data,
            final(self)@.srs_config == old(self)@.srs_config,
    {
        proof {
            lemma_upsert_puzzle_unique(self@.puzzles, puzzle@);
        }
        let mut i: usize = 0;
        while i < self.puzzles.len()
            invariant
                i <= self@.puzzles.len(),
                forall|j: int| 0 <= j < i ==> self@.puzzles[j].puzzle_id != puzzle@.puzzle_id,
                self@ == old(self)@,
            decreases self@.puzzles.len() - i,
        {
            if string_eq(&self.puzzles[i].puzzle_id, &puzzle.puzzle_id) {
                proof {
                    assert(self@.puzzles[i as int] == self.puzzles@[i as int]@);
                    assert(self@.puzzles[i as int].puzzle_id == puzzle@.puzzle_id);
                    assert(spec_has_puzzle(self@.puzzles, puzzle@.puzzle_id));
                    let k = choose|j: int|
                        0 <= j < self@.puzzles.len() && self@.puzzles[j].puzzle_id
                            == puzzle@.puzzle_id;
                    if k != i {
                        assert(self@.puzzles[k].puzzle_id == self@.puzzles[i as int].puzzle_id);
                    }
                    assert(k == i);
                }
                let slot = vstd::std_specs::vec::vec_index_mut(&mut self.puzzles, i);
                *slot = puzzle.duplicate();
                proof {
                    assert(self@.puzzles =~= spec_upsert_puzzle(old(self)@.puzzles, puzzle@));
                }
                return;
            }
            i = i + 1;
        }
        proof {
            assert(!spec_has_puzzle(self@.puzzles, puzzle@.puzzle_id)) by {
                assert(forall|j: int|
                    0 <= j < self@.puzzles.len() ==> (#[trigger] self@.puzzles[j])
                        == self.puzzles@[j]@ && self@.puzzles[j].puzzle_id != puzzle@.puzzle_id);
            }
        }
        self.puzzles.push(puzzle.duplicate());
        proof {
            assert(self@.puzzles =~= spec_upsert_puzzle(old(self)@.puzzles, puzzle@));
        }
    }

    /// The stored puzzle with the given id, if the corpus holds one.
    pub fn get_puzzle_by_id(&self, puzzle_id: &String) -> (r: Option<Puzzle>)
        ensures
            r is Some <==> spec_has_puzzle(self@.puzzles, puzzle_id@),
            r matches Some(p) ==> exists|i: int|
                0 <= i < self@.puzzles.len() && self@.puzzles[i].puzzle_id == puzzle_id@
                    && p@ == self@.puzzles[i],
    {
        let mut i: usize = 0;
        while i < self.puzzles.len()
            invariant
                i <= self@.puzzles.len(),
                forall|j: int| 0 <= j < i ==> self@.puzzles[j].puzzle_id != puzzle_id@,
            decreases self@.puzzles.len() - i,
        {
            if string_eq(&self.puzzles[i].puzzle_id, puzzle_id) {
                proof {
                    assert(self@.puzzles[i as int] == self.puzzles@[i as int]@);
                    assert(self@.puzzles[i as int].puzzle_id == puzzle_id@);
                }
                return Some(self.puzzles[i].duplicate());
            }
            i = i + 1;
        }
        None
    }

    /// Up to `max_puzzles` puzzles whose rating lies in `[min_rating,
    /// max_rating]`.  Which ones come back is left open by the contract;
    /// this store scans the corpus in storage order, so variety comes from
    /// the order rows were loaded in.  When the corpus holds any puzzle in
    /// the window and `max_puzzles` is positive, at least one comes back.
    pub fn get_puzzles_by_rating(&self, min_rating: i64, max_rating: i64, max_puzzles: u64) -> (r:
        Vec<Puzzle>)
        ensures
            r@.len() <= max_puzzles,
            forall|k: int|
                0 <= k < r@.len() ==> min_rating <= (#[trigger] r@[k])@.rating <= max_rating
                    && exists|i: int|
                    0 <= i < self@.puzzles.len() && r@[k]@ == self@.puzzles[i],
            (max_puzzles > 0 && exists|i: int|
                0 <= i < self@.puzzles.len() && min_rating <= (#[trigger] self@.puzzles[i]).rating
                    <= max_rating) ==> r@.len() > 0,
    {
        let mut r: Vec<Puzzle> = Vec::new();
        if max_puzzles == 0 {
            return r;
        }
        let mut i: usize = 0;
        while i < self.puzzles.len()
            invariant
                i <= self@.puzzles.len(),
                max_puzzles > 0,
                r@.len() <= max_puzzles,
                forall|k: int|
                    0 <= k < r@.len() ==> min_rating <= (#[trigger] r@[k])@.rating <= max_rating
                        && exists|n: int|
                        0 <= n < self@.puzzles.len() && r@[k]@ == self@.puzzles[n],
                (exists|j: int|
                    0 <= j < i && min_rating <= (#[trigger] self@.puzzles[j]).rating
                        <= max_rating) ==> r@.len() > 0,
            decreases self@.puzzles.len() - i,
        {
            if (r.len() as u64) < max_puzzles
                && min_rating <= self.puzzles[i].rating && self.puzzles[i].rating <= max_rating {
                let ghost n = i as int;
                r.push(self.puzzles[i].duplicate());
                proof {
                    assert(r@[r@.len() - 1]@ == self@.puzzles[n]);
                }
            }
            i = i + 1;
        }
        r
    }
}

/// Whether two strings hold the same characters.
pub fn string_eq(a: &String, b: &String) -> (r: bool)
    ensures
        r == (a@ == b@),
{
    *a == *b
}

} // verus!
