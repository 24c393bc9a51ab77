//! The user operations: resetting the rating and validating the numeric
//! parameters of the statistics queries.

use vstd::prelude::*;

use crate::api::{ApiError, ApiResponse};
use crate::app::AppState;
use crate::db::card::spec_count_forecast_day;
use crate::db::{DbV, UserV};
use crate::rating::{Rating, DEFAULT_RATING_DEVIATION, DEFAULT_VOLATILITY_BITS};
use crate::services::user_service::UserService;
use crate::time::Timestamp;

verus! {

/// The smallest accepted histogram bucket width.
pub const MIN_BUCKET_SIZE: i64 = 50;

/// The longest accepted forecast, in days.
pub const MAX_FORECAST_DAYS: u64 = 30;

/// Resets the user's rating to the given value, with the default deviation
/// and volatility.
pub fn reset_rating(state: &mut AppState, new_rating: i64) -> (r: Result<ApiResponse, ApiError>)
    requires
        old(state).inv(),
        old(state).db@.user.id == "local"@,
    ensures
        final(state).inv(),
        final(state).app_config == old(state).app_config,
        r is Ok,
        final(state).db@.user == (UserV {
            rating: Rating {
                rating: new_rating,
                deviation: DEFAULT_RATING_DEVIATION,
                volatility: DEFAULT_VOLATILITY_BITS,
            },
            ..old(state).db@.user
        }),
        final(state).db@ == (DbV { user: final(state).db@.user, ..old(state).db@ }),
{
    let user_id: String = UserService::local_user_id().to_owned();
    match state.user_service.reset_user_rating(
        &mut state.db,
        &user_id,
        new_rating,
        DEFAULT_RATING_DEVIATION,
        DEFAULT_VOLATILITY_BITS,
    ) {
        Ok(()) => Ok(ApiResponse::ok()),
        Err(_) => Err(ApiError::InternalError("no such user".to_owned())),
    }
}

/// The review forecast over `length_days` days; a length outside the
/// accepted range is rejected as an invalid parameter.
pub fn review_forecast(state: &AppState, length_days: u64, now: Timestamp) -> (r: Result<
    Vec<u64>,
    ApiError,
>)
    requires
        state.inv(),
        now.wf(),
    ensures
        r is Ok <==> length_days <= MAX_FORECAST_DAYS,
        r matches Ok(forecast) ==> {
            let day_end = state.db@.srs_config.spec_day_end_datetime(now);
            &&& forecast@.len() == length_days
            &&& forall|d: int|
                0 <= d < length_days ==> forecast@[d] == spec_count_forecast_day(
                    state.db@.cards,
                    day_end,
                    d,
                )
        },
        r matches Err(e) ==> e is InvalidParameter,
{
    if length_days > MAX_FORECAST_DAYS {
        return Err(ApiError::InvalidParameter("length_days".to_owned()));
    }
    let user_id: String = UserService::local_user_id().to_owned();
    match state.user_service.get_review_forecast(&state.db, &user_id, length_days, now) {
        Ok(forecast) => Ok(forecast),
        Err(_) => Err(ApiError::InvalidParameter("length_days".to_owned())),
    }
}

/// The review-score histogram; a bucket width under the minimum is rejected
/// as an invalid parameter.  The corpus-rating bound only keeps the window
/// arithmetic inside the rating type.
pub fn review_score_histogram(state: &AppState, bucket_size: i64) -> (r: Result<
    Vec<crate::db::ReviewScoreBucket>,
    ApiError,
>)
    requires
        state.inv(),
        forall|i: int|
            0 <= i < state.db@.puzzles.len() ==> i64::MIN + bucket_size <= (
            #[trigger] state.db@.puzzles[i]).rating && state.db@.puzzles[i].rating + bucket_size
                <= i64::MAX,
    ensures
        r is Ok <==> bucket_size >= MIN_BUCKET_SIZE,
        r matches Err(e) ==> e is InvalidParameter,
        r matches Ok(h) ==> crate::db::card::spec_bars_sorted(h@) && forall|k: int|
            0 <= k < h@.len() ==> (#[trigger] h@[k]).review_count
                == crate::db::card::spec_count_histogram_bar(
                state.db@.reviews,
                "local"@,
                state.db@.puzzles,
                bucket_size as int,
                h@[k].puzzle_rating_min as int,
                h@[k].difficulty,
            ) && h@[k].review_count > 0,
{
    if bucket_size < MIN_BUCKET_SIZE {
        return Err(ApiError::InvalidParameter("bucket_size".to_owned()));
    }
    let user_id: String = UserService::local_user_id().to_owned();
    match state.user_service.get_review_score_histogram(&state.db, &user_id, bucket_size) {
        Ok(h) => Ok(h),
        Err(_) => Err(ApiError::InvalidParameter("bucket_size".to_owned())),
    }
}

} // verus!
