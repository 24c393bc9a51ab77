//! The user's rating triple and the guarded rating update.
//!
//! The numeric Glicko-2 computation itself runs outside this crate (it is
//! floating-point); the library stores the triple it produces and decides,
//! per review, whether the produced triple or the prior one is persisted.

use vstd::prelude::*;

use crate::srs::Difficulty;

verus! {

/// Rating a user starts with.
pub const DEFAULT_RATING: i64 = 500;

/// Rating deviation a user starts with.
pub const DEFAULT_RATING_DEVIATION: i64 = 250;

/// IEEE-754 bit pattern of the volatility a user starts with (0.06).
pub const DEFAULT_VOLATILITY_BITS: u64 = 0x3FAE_B851_EB85_1EB8;

/// A player's rating triple.  The volatility is carried as the IEEE-754 bit
/// pattern of the value the rating engine produced; the library stores it
/// and hands it back, and never interprets it.
#[derive(Debug, PartialEq, Eq, Copy, Clone, Structural)]
pub struct Rating {
    pub rating: i64,
    pub deviation: i64,
    /// IEEE-754 bit pattern of the Glicko-2 volatility.
    pub volatility: u64,
}

impl Rating {
    /// The triple a fresh user starts with.
    pub open spec fn spec_initial() -> Rating {
        Rating {
            rating: DEFAULT_RATING,
            deviation: DEFAULT_RATING_DEVIATION,
            volatility: DEFAULT_VOLATILITY_BITS,
        }
    }

    /// The triple a fresh user starts with.
    pub fn initial() -> (r: Rating)
        ensures
            r == Rating::spec_initial(),
    {
        Rating {
            rating: DEFAULT_RATING,
            deviation: DEFAULT_RATING_DEVIATION,
            volatility: DEFAULT_VOLATILITY_BITS,
        }
    }
}

/// The triple that is persisted after a review: a good grade that would not
/// raise the rating is discarded and the prior triple kept; everything else
/// takes the freshly computed triple, deviation and volatility included.
pub open spec fn spec_guarded_update(
    difficulty: Difficulty,
    prior: Rating,
    updated: Rating,
) -> Rating {
    if difficulty != Difficulty::Good || updated.rating > prior.rating {
        updated
    } else {
        prior
    }
}

/// Applies the "good never lowers the rating" guard: returns the triple to
/// persist, and in particular a good grade never lowers the rating.
pub fn guarded_update(difficulty: Difficulty, prior: Rating, updated: Rating) -> (r: Rating)
    ensures
        r == spec_guarded_update(difficulty, prior, updated),
        difficulty == Difficulty::Good ==> r.rating >= prior.rating,
{
    if difficulty != Difficulty::Good || updated.rating > prior.rating {
        updated
    } else {
        prior
    }
}

/// Whatever triples the rating engine produces, a review graded good never
/// lowers the persisted rating below the prior one.
pub proof fn lemma_good_never_lowers(prior: Rating, updated: Rating)
    ensures
        spec_guarded_update(Difficulty::Good, prior, updated).rating >= prior.rating,
{
}

} // verus!
