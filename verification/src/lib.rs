//! A spaced-repetition chess-tactics trainer core.
//!
//! The crate holds the pure engines of the trainer: the per-card
//! spaced-repetition scheduler, the day-boundary clock logic, the guarded
//! rating update, the in-memory query layer over cards, puzzles, reviews and
//! users, and the services that orchestrate them.  Every function is verified
//! against its contract; time and persistence enter only through plain
//! values handed in by the caller.

pub mod time;
pub mod util;
pub mod srs;
pub mod rating;
pub mod db;
pub mod services;
pub mod app;
pub mod api;
