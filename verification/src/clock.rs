//! Time as the simulation counts it, and the pace at which the stack rises.
//!
//! Time is measured in whole ticks, a third of a nanosecond each, so that every
//! interval the simulation works with is an exact number of ticks.

use vstd::arithmetic::div_mod::{
    lemma_basic_div,
    lemma_div_is_ordered,
    lemma_div_pos_is_pos,
    lemma_fundamental_div_mod,
    lemma_fundamental_div_mod_converse,
    lemma_mod_bound,
    lemma_small_mod,
};
use vstd::arithmetic::mul::lemma_mul_is_distributive_add_other_way;
use vstd::prelude::*;

verus! {

/// Ticks in one second.
pub const TICKS_PER_SECOND: u64 = 3_000_000_000;

/// Time the stack takes to rise by one pixel at level 0: 0.4 s.
pub const BASE_RISE_INTERVAL: u64 = 1_200_000_000;

/// Time by which each level shortens the rise interval: 0.045 s.
pub const SPEEDUP_PER_LEVEL: u64 = 135_000_000;

/// The shortest rise interval, one frame at 60 Hz: 1/60 s.
pub const MIN_RISE_INTERVAL: u64 = 50_000_000;

/// Time one animation frame is shown: 1/25 s.
pub const FRAME_INTERVAL: u64 = 120_000_000;

/// Ticks per one-pixel rise at `level`: the base interval shortened by the
/// speed-up of each level, and never below the minimum.
pub open spec fn rise_interval_spec(level: int) -> int {
    let shortened = BASE_RISE_INTERVAL as int - SPEEDUP_PER_LEVEL as int * level;
    if shortened < MIN_RISE_INTERVAL as int {
        MIN_RISE_INTERVAL as int
    } else {
        shortened
    }
}

/// Number of whole intervals contained in the banked time plus `delta`.
pub open spec fn steps_due(banked: int, delta: int, interval: int) -> int {
    (banked + delta) / interval
}

/// Time left in the bank once every whole interval has been taken out.
pub open spec fn banked_after(banked: int, delta: int, interval: int) -> int {
    (banked + delta) % interval
}

/// Ticks per one-pixel rise at `level`.
pub fn rise_interval(level: i8) -> (interval: u64)
    ensures
        interval == rise_interval_spec(level as int),
        MIN_RISE_INTERVAL <= interval,
{
    let shortened: i64 = 1_200_000_000i64 - 135_000_000i64 * (level as i64);
    if shortened < 50_000_000i64 {
        MIN_RISE_INTERVAL
    } else {
        shortened as u64
    }
}

/// The rise interval never grows with the level and never falls below the
/// minimum.
pub proof fn law_rise_interval_monotone(lower: int, higher: int)
    requires
        lower <= higher,
    ensures
        rise_interval_spec(higher) <= rise_interval_spec(lower),
        MIN_RISE_INTERVAL as int <= rise_interval_spec(higher),
{
    assert(SPEEDUP_PER_LEVEL as int * lower <= SPEEDUP_PER_LEVEL as int * higher)
        by (nonlinear_arith)
        requires
            lower <= higher,
    ;
}

/// At level 0 the interval is the base interval, and from level 9 on it is
/// exactly the minimum.
pub proof fn law_rise_interval_ends(level: int)
    ensures
        rise_interval_spec(0) == BASE_RISE_INTERVAL as int,
        5 * rise_interval_spec(0) == 2 * TICKS_PER_SECOND as int,
        level >= 9 ==> rise_interval_spec(level) == MIN_RISE_INTERVAL as int,
        60 * MIN_RISE_INTERVAL as int == TICKS_PER_SECOND as int,
{
    if level >= 9 {
        assert(SPEEDUP_PER_LEVEL as int * level >= SPEEDUP_PER_LEVEL as int * 9)
            by (nonlinear_arith)
            requires
                level >= 9,
        ;
    }
}

/// The clock never owes a negative number of steps, and never keeps a whole
/// interval in the bank.
pub proof fn lemma_clock_in_range(banked: int, delta: int, interval: int)
    requires
        0 <= banked + delta,
        0 < interval,
    ensures
        0 <= steps_due(banked, delta, interval),
        0 <= banked_after(banked, delta, interval) < interval,
{
    lemma_div_pos_is_pos(banked + delta, interval);
    lemma_mod_bound(banked + delta, interval);
}

/// With less than an interval in the bank and no time added, no step is due
/// and the bank stays as it is.
pub proof fn lemma_clock_at_rest(banked: int, interval: int)
    requires
        0 <= banked < interval,
    ensures
        steps_due(banked, 0, interval) == 0,
        banked_after(banked, 0, interval) == banked,
{
    lemma_basic_div(banked, interval);
    lemma_small_mod(banked as nat, interval as nat);
}

/// More time never makes fewer steps due.
pub proof fn lemma_steps_due_ordered(banked: int, less: int, more: int, interval: int)
    requires
        less <= more,
        0 < interval,
    ensures
        steps_due(banked, less, interval) <= steps_due(banked, more, interval),
{
    lemma_div_is_ordered(banked + less, banked + more, interval);
}

/// Splitting a span of time into two does not change what the clock makes of
/// it: the steps due over both parts add up to the steps due over the whole,
/// and the same time is left in the bank.
pub proof fn law_rechunking(banked: int, first: int, second: int, interval: int)
    requires
        0 <= banked,
        0 <= first,
        0 <= second,
        0 < interval,
    ensures
        steps_due(banked, first, interval) + steps_due(
            banked_after(banked, first, interval),
            second,
            interval,
        ) == steps_due(banked, first + second, interval),
        banked_after(banked_after(banked, first, interval), second, interval) == banked_after(
            banked,
            first + second,
            interval,
        ),
{
    let q1 = (banked + first) / interval;
    let r1 = (banked + first) % interval;
    let q2 = (r1 + second) / interval;
    let r2 = (r1 + second) % interval;
    lemma_fundamental_div_mod(banked + first, interval);
    lemma_fundamental_div_mod(r1 + second, interval);
    lemma_mod_bound(r1 + second, interval);
    lemma_mul_is_distributive_add_other_way(interval, q1, q2);
    assert(banked + first + second == (q1 + q2) * interval + r2);
    lemma_fundamental_div_mod_converse(banked + first + second, interval, q1 + q2, r2);
}

} // verus!
