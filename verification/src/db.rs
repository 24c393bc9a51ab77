//! The store: typed, in-memory tables for puzzles, cards, reviews, the user,
//! skipped puzzles and the app-state singleton, with verified queries.
//!
//! The application shell is responsible for durability; it loads rows into
//! this store at startup and writes changed rows back.  Every query and
//! mutation here is verified against the store's mathematical view [`DbV`].

pub mod card;
pub mod dbresult;
pub mod puzzle;
pub mod user;

use vstd::prelude::*;

pub use card::{Review, ReviewScoreBucket, ReviewV};
pub use dbresult::{DatabaseError, ErrorDetails};
pub use puzzle::{Puzzle, PuzzleV};
pub use user::{SkippedPuzzle, SkippedPuzzleV, User, UserV};

use crate::rating::Rating;
use crate::srs::{Card, CardV, SrsConfig};
use crate::time::Timestamp;

verus! {

/// The mathematical value of [`AppData`].
pub struct AppDataV {
    pub environment: Seq<char>,
    pub lichess_db_imported: bool,
    pub last_backup_date: Option<Timestamp>,
}

/// The app-state singleton, keyed by an environment name.
#[derive(Debug, Clone)]
pub struct AppData {
    pub environment: String,
    /// Whether the puzzle corpus has been imported.
    pub lichess_db_imported: bool,
    /// When the last database backup was taken, if one ever was.
    pub last_backup_date: Option<Timestamp>,
}

impl View for AppData {
    type V = AppDataV;

    open spec fn view(&self) -> AppDataV {
        AppDataV {
            environment: self.environment@,
            lichess_db_imported: self.lichess_db_imported,
            last_backup_date: self.last_backup_date,
        }
    }
}

impl AppData {
    /// A copy of this record with the same value.
    pub fn duplicate(&self) -> (r: AppData)
        ensures
            r@ == self@,
    {
        AppData {
            environment: self.environment.clone(),
            lichess_db_imported: self.lichess_db_imported,
            last_backup_date: self.last_backup_date,
        }
    }
}

/// The mathematical value of the whole store.
pub struct DbV {
    pub puzzles: Seq<PuzzleV>,
    pub cards: Seq<CardV>,
    pub reviews: Seq<ReviewV>,
    pub user: UserV,
    pub skipped_puzzles: Seq<SkippedPuzzleV>,
    pub app_data: AppDataV,
    pub srs_config: SrsConfig,
}

/// The store.
#[derive(Debug)]
pub struct PuzzleDatabase {
    pub puzzles: Vec<Puzzle>,
    pub cards: Vec<Card>,
    pub reviews: Vec<Review>,
    pub user: User,
    pub skipped_puzzles: Vec<SkippedPuzzle>,
    pub app_data: AppData,
    pub srs_config: SrsConfig,
}

impl View for PuzzleDatabase {
    type V = DbV;

    open spec fn view(&self) -> DbV {
        DbV {
            puzzles: self.puzzles@.map_values(|p: Puzzle| p@),
            cards: self.cards@.map_values(|c: Card| c@),
            reviews: self.reviews@.map_values(|r: Review| r@),
            user: self.user@,
            skipped_puzzles: self.skipped_puzzles@.map_values(|s: SkippedPuzzle| s@),
            app_data: self.app_data@,
            srs_config: self.srs_config,
        }
    }
}

impl DbV {
    /// The store's invariant: the configuration is well formed, every card
    /// is well formed, scheduled under the store's configuration and has a
    /// due time in range, card and puzzle ids are unique, and review dates
    /// are in range.
    pub open spec fn inv(self) -> bool {
        &&& self.srs_config.wf()
        &&& forall|i: int|
            0 <= i < self.cards.len() ==> (#[trigger] self.cards[i]).wf()
                && self.cards[i].srs_config == self.srs_config && self.cards[i].due.wf()
        &&& forall|i: int, j: int|
            0 <= i < j < self.cards.len() ==> self.cards[i].id != self.cards[j].id
        &&& puzzle::spec_puzzles_unique(self.puzzles)
        &&& forall|i: int| 0 <= i < self.reviews.len() ==> (#[trigger] self.reviews[i]).date.wf()
    }
}

impl DbV {
    /// Every card has room for one more review: the ease can still take its
    /// largest bump and the review count can still grow.  Reviewing needs
    /// this headroom; it is a bound of the integer types, unreachable in any
    /// real collection.
    pub open spec fn sched_headroom(self) -> bool {
        forall|i: int|
            0 <= i < self.cards.len() ==> (#[trigger] self.cards[i]).ease + 15 <= u32::MAX
                && self.cards[i].review_count < u64::MAX
    }
}

impl PuzzleDatabase {
    /// The store's invariant; see [`DbV::inv`].
    pub open spec fn inv(self) -> bool {
        self@.inv()
    }

    /// An empty store for the given environment and user, scheduled under
    /// `srs_config`, with the default rating.
    pub fn new(environment: &str, user_id: &str, srs_config: SrsConfig) -> (r: PuzzleDatabase)
        requires
            srs_config.wf(),
        ensures
            r.inv(),
            r@.puzzles.len() == 0,
            r@.cards.len() == 0,
            r@.reviews.len() == 0,
            r@.skipped_puzzles.len() == 0,
            r@.user == (UserV { id: user_id@, rating: Rating::spec_initial(), next_puzzle: None }),
            r@.app_data == (AppDataV {
                environment: environment@,
                lichess_db_imported: false,
                last_backup_date: None,
            }),
            r@.srs_config == srs_config,
    {
        let r = PuzzleDatabase {
            puzzles: Vec::new(),
            cards: Vec::new(),
            reviews: Vec::new(),
            user: User { id: user_id.to_owned(), rating: Rating::initial(), next_puzzle: None },
            skipped_puzzles: Vec::new(),
            app_data: AppData {
                environment: environment.to_owned(),
                lichess_db_imported: false,
                last_backup_date: None,
            },
            srs_config,
        };
        proof {
            assert(r@.puzzles =~= Seq::<PuzzleV>::empty());
            assert(r@.cards =~= Seq::<CardV>::empty());
            assert(r@.reviews =~= Seq::<ReviewV>::empty());
            assert(r@.skipped_puzzles =~= Seq::<SkippedPuzzleV>::empty());
        }
        r
    }

    /// The app-state record, if `env` names the stored environment.
    pub fn get_app_data(&self, env: &String) -> (r: Option<AppData>)
        ensures
            r is Some <==> env@ == self@.app_data.environment,
            r matches Some(a) ==> a@ == self@.app_data,
    {
        if puzzle::string_eq(&self.app_data.environment, env) {
            Some(self.app_data.duplicate())
        } else {
            None
        }
    }

    /// Replaces the app-state record.
    pub fn set_app_data(&mut self, app_data: &AppData)
        requires
            old(self).inv(),
        ensures
            final(self).inv(),
            final(self)@.app_data == app_data@,
            final(self)@ == (DbV { app_data: final(self)@.app_data, ..old(self)@ }),
    {
        self.app_data = app_data.duplicate();
    }
}

} // verus!
