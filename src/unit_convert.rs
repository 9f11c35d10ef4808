use vstd::prelude::*;

verus! {

/// `x / d` rounded toward zero.
pub open spec fn div_toward_zero(x: int, d: int) -> int {
    if x >= 0 {
        x / d
    } else {
        -((-x) / d)
    }
}

/// Ticks to seconds (sixty ticks a second), rounding toward zero.
pub fn sec_from_tick(tick: i64) -> (r: i64)
    ensures
        r == div_toward_zero(tick as int, 60),
{
    if tick >= 0 {
        tick / 60
    } else {
        -((-(tick as i128)) / 60) as i64
    }
}

/// Ticks to minutes, rounding toward zero.
pub fn min_from_tick(tick: i64) -> (r: i64)
    ensures
        r == div_toward_zero(tick as int, 3600),
{
    if tick >= 0 {
        tick / 3600
    } else {
        -((-(tick as i128)) / 3600) as i64
    }
}

/// Seconds to ticks.
pub fn tick_from_sec(sec: i64) -> (r: i64)
    requires
        i64::MIN <= sec * 60 <= i64::MAX,
    ensures
        r == sec * 60,
{
    sec * 60
}

/// Minutes to ticks.
pub fn tick_from_min(min: i64) -> (r: i64)
    requires
        i64::MIN <= min * 3600 <= i64::MAX,
    ensures
        r == min * 3600,
{
    min * 3600
}

} // verus!
