//! The user record and the operations on it.

use vstd::prelude::*;

use crate::db::PuzzleDatabase;
use crate::db::puzzle::string_eq;
use crate::rating::Rating;
use crate::time::Timestamp;

verus! {

/// The mathematical value of a [`User`].
pub struct UserV {
    pub id: Seq<char>,
    pub rating: Rating,
    pub next_puzzle: Option<Seq<char>>,
}

/// The single learner the trainer schedules for.
#[derive(Debug, Clone)]
pub struct User {
    pub id: String,
    /// The learner's rating triple.
    pub rating: Rating,
    /// The sticky "next puzzle": a freshly sampled puzzle reappears until it
    /// is reviewed or skipped.
    pub next_puzzle: Option<String>,
}

impl View for User {
    type V = UserV;

    open spec fn view(&self) -> UserV {
        UserV {
            id: self.id@,
            rating: self.rating,
            next_puzzle: match self.next_puzzle {
                Some(ref s) => Some(s@),
                None => None,
            },
        }
    }
}

impl User {
    /// A copy of this user with the same value.
    pub fn duplicate(&self) -> (r: User)
        ensures
            r@ == self@,
    {
        User {
            id: self.id.clone(),
            rating: self.rating,
            next_puzzle: match &self.next_puzzle {
                Some(s) => Some(s.clone()),
                None => None,
            },
        }
    }
}

/// The mathematical value of a [`SkippedPuzzle`].
pub struct SkippedPuzzleV {
    pub user_id: Seq<char>,
    pub puzzle_id: Seq<char>,
    pub date: Timestamp,
}

/// An append-only record of a puzzle the user skipped.
#[derive(Debug, Clone)]
pub struct SkippedPuzzle {
    pub user_id: String,
    pub puzzle_id: String,
    pub date: Timestamp,
}

impl View for SkippedPuzzle {
    type V = SkippedPuzzleV;

    open spec fn view(&self) -> SkippedPuzzleV {
        SkippedPuzzleV { user_id: self.user_id@, puzzle_id: self.puzzle_id@, date: self.date }
    }
}

impl PuzzleDatabase {
    /// The user record with the given id, if it is the stored user's.
    pub fn get_user_by_id(&self, user_id: &String) -> (r: Option<User>)
        ensures
            r is Some <==> user_id@ == self@.user.id,
            r matches Some(u) ==> u@ == self@.user,
    {
        if string_eq(&self.user.id, user_id) {
            Some(self.user.duplicate())
        } else {
            None
        }
    }

    /// Replaces the stored user record, if `user` carries the stored user's
    /// id; a record with any other id leaves the store unchanged.
    pub fn update_user(&mut self, user: &User)
        requires
            old(self).inv(),
        ensures
            final(self).inv(),
            user@.id == old(self)@.user.id ==> final(self)@.user == user@,
            user@.id != old(self)@.user.id ==> final(self)@.user == old(self)@.user,
            final(self)@ == (crate::db::DbV { user: final(self)@.user, ..old(self)@ }),
    {
        if string_eq(&self.user.id, &user.id) {
            self.user = user.duplicate();
        }
    }

    /// Appends a skipped-puzzle record.
    pub fn add_skipped_puzzle(&mut self, user_id: &String, puzzle_id: &String, date: Timestamp)
        requires
            old(self).inv(),
        ensures
            final(self).inv(),
            final(self)@.skipped_puzzles == old(self)@.skipped_puzzles.push(
                SkippedPuzzleV { user_id: user_id@, puzzle_id: puzzle_id@, date },
            ),
            final(self)@ == (crate::db::DbV { skipped_puzzles: final(self)@.skipped_puzzles, ..old(self)@ }),
    {
        self.skipped_puzzles.push(
            SkippedPuzzle { user_id: user_id.clone(), puzzle_id: puzzle_id.clone(), date },
        );
    }
}

} // verus!
