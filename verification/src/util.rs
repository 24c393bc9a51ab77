//! Wall-clock helpers: the next occurrence of a given time of day.

use vstd::prelude::*;
use vstd::arithmetic::div_mod::{
    lemma_fundamental_div_mod, lemma_mod_add_multiples_vanish, lemma_mod_division_less_than_divisor,
    lemma_mod_multiples_vanish,
};

use crate::time::{Timestamp, SECONDS_PER_DAY};

verus! {

/// The first instant strictly after `now` whose local time of day equals
/// `time_of_day` (a count of seconds past local midnight).
pub open spec fn spec_next_time_after(now: Timestamp, time_of_day: int) -> Timestamp {
    let local = now.local_seconds();
    let second_of_day = local % (SECONDS_PER_DAY as int);
    let target_local = if second_of_day < time_of_day {
        local - second_of_day + time_of_day
    } else {
        local - second_of_day + time_of_day + SECONDS_PER_DAY
    };
    Timestamp {
        utc_seconds: (target_local - now.offset_seconds) as i64,
        offset_seconds: now.offset_seconds,
    }
}

/// The next instant with the given local time of day lies strictly after
/// `now`, no more than a day after it, and its time of day is as asked.
pub proof fn lemma_next_time_after_bounds(now: Timestamp, time_of_day: int)
    requires
        now.wf(),
        0 <= time_of_day < SECONDS_PER_DAY,
    ensures
        spec_next_time_after(now, time_of_day).offset_seconds == now.offset_seconds,
        now.local_seconds() < spec_next_time_after(now, time_of_day).local_seconds()
            <= now.local_seconds() + SECONDS_PER_DAY,
        spec_next_time_after(now, time_of_day).local_seconds() % (SECONDS_PER_DAY as int)
            == time_of_day,
{
    let local = now.local_seconds();
    let day = SECONDS_PER_DAY as int;
    let second_of_day = local % day;
    lemma_mod_division_less_than_divisor(local, day);
    lemma_fundamental_div_mod(local, day);
    let q = local / day;
    let r = spec_next_time_after(now, time_of_day);
    assert(r.utc_seconds + r.offset_seconds == local - second_of_day + time_of_day
        || r.utc_seconds + r.offset_seconds == local - second_of_day + time_of_day + day);
    if second_of_day < time_of_day {
        assert(r.local_seconds() == day * q + time_of_day);
        lemma_mod_multiples_vanish(q, time_of_day, day);
        lemma_mod_division_less_than_divisor(time_of_day, day);
        assert(time_of_day % day == time_of_day) by {
            lemma_fundamental_div_mod(time_of_day, day);
            lemma_small_div_of(time_of_day, day);
        }
    } else {
        assert(r.local_seconds() == day * (q + 1) + time_of_day);
        lemma_mod_multiples_vanish(q + 1, time_of_day, day);
        assert(time_of_day % day == time_of_day) by {
            lemma_fundamental_div_mod(time_of_day, day);
            lemma_small_div_of(time_of_day, day);
        }
    }
}

/// Division of a value by a larger positive divisor is zero.
proof fn lemma_small_div_of(x: int, d: int)
    requires
        0 <= x < d,
    ensures
        x / d == 0,
{
    lemma_fundamental_div_mod(x, d);
    lemma_mod_division_less_than_divisor(x, d);
    if x / d >= 1 {
        assert(d * (x / d) >= d) by (nonlinear_arith)
            requires
                d > 0,
                x / d >= 1,
        ;
    }
    if x / d <= -1 {
        assert(d * (x / d) <= -d) by (nonlinear_arith)
            requires
                d > 0,
                x / d <= -1,
        ;
    }
}

/// No instant with the asked time of day lies strictly between `now` and the
/// one `spec_next_time_after` gives: it is the least such instant.
pub proof fn lemma_next_time_after_least(now: Timestamp, time_of_day: int, t: int)
    requires
        now.wf(),
        0 <= time_of_day < SECONDS_PER_DAY,
        t > now.local_seconds(),
        t % (SECONDS_PER_DAY as int) == time_of_day,
    ensures
        spec_next_time_after(now, time_of_day).local_seconds() <= t,
{
    let local = now.local_seconds();
    let day = SECONDS_PER_DAY as int;
    let second_of_day = local % day;
    lemma_mod_division_less_than_divisor(local, day);
    lemma_fundamental_div_mod(local, day);
    lemma_fundamental_div_mod(t, day);
    let q = local / day;
    let k = t / day;
    let r = spec_next_time_after(now, time_of_day);
    lemma_next_time_after_bounds(now, time_of_day);
    if second_of_day < time_of_day {
        assert(r.local_seconds() == day * q + time_of_day);
        if k <= q - 1 {
            assert(day * k <= day * (q - 1)) by (nonlinear_arith)
                requires
                    day > 0,
                    k <= q - 1,
            ;
            assert(false);
        }
        assert(day * k >= day * q) by (nonlinear_arith)
            requires
                day > 0,
                k >= q,
        ;
    } else {
        assert(r.local_seconds() == day * (q + 1) + time_of_day);
        if k <= q {
            assert(day * k <= day * q) by (nonlinear_arith)
                requires
                    day > 0,
                    k <= q,
            ;
            assert(false);
        }
        assert(day * k >= day * (q + 1)) by (nonlinear_arith)
            requires
                day > 0,
                k >= q + 1,
            ;
    }
}

/// The first instant strictly after `now` whose local time of day is
/// `time_of_day` seconds past midnight.  The result keeps `now`'s offset.
pub fn next_time_after(now: Timestamp, time_of_day: u32) -> (r: Timestamp)
    requires
        now.wf(),
        time_of_day < SECONDS_PER_DAY,
    ensures
        r == spec_next_time_after(now, time_of_day as int),
        r.offset_seconds == now.offset_seconds,
        now.local_seconds() < r.local_seconds() <= now.local_seconds() + SECONDS_PER_DAY,
        r.local_seconds() % (SECONDS_PER_DAY as int) == time_of_day,
{
    let local: i64 = now.utc_seconds + now.offset_seconds;
    let shifted: u64 = (local + SECONDS_PER_DAY) as u64;
    let second_of_day: i64 = (shifted % (SECONDS_PER_DAY as u64)) as i64;
    proof {
        lemma_mod_add_multiples_vanish(local as int, SECONDS_PER_DAY as int);
        lemma_mod_division_less_than_divisor(local as int, SECONDS_PER_DAY as int);
        assert(second_of_day == (local as int) % (SECONDS_PER_DAY as int));
        lemma_next_time_after_bounds(now, time_of_day as int);
    }
    let target_local: i64 = if second_of_day < time_of_day as i64 {
        local - second_of_day + time_of_day as i64
    } else {
        local - second_of_day + time_of_day as i64 + SECONDS_PER_DAY
    };
    Timestamp {
        utc_seconds: target_local - now.offset_seconds,
        offset_seconds: now.offset_seconds,
    }
}

} // verus!
