//! The fade curve: opacity, in thousandths, as a function of the milliseconds
//! since the last accepted keystroke.
use vstd::prelude::*;
use vstd::arithmetic::div_mod::lemma_div_is_ordered;

verus! {

/// Full opacity; opacity runs from 0 (invisible) to this value.
pub const OPACITY_FULL: u32 = 1000;

/// Milliseconds after a keystroke during which the text stays fully opaque.
pub const FADE_START_MS: u64 = 700;

/// Milliseconds of the fade formula: subtracted from the elapsed time and used
/// as its divisor.
pub const FADE_DURATION_MS: u64 = 400;

/// Limits `x` to the range `[lo, hi]`.
pub open spec fn clamp(x: int, lo: int, hi: int) -> int {
    if x < lo {
        lo
    } else if x > hi {
        hi
    } else {
        x
    }
}

/// Opacity after `e` milliseconds without an accepted keystroke: full up to
/// the fade start, then `1 - (e - FADE_DURATION) / FADE_DURATION`, clamped to
/// `[0, 1]`, in thousandths rounded down.
pub open spec fn opacity_at(e: int) -> int {
    if e <= FADE_START_MS {
        OPACITY_FULL as int
    } else {
        clamp(
            OPACITY_FULL - (e - FADE_DURATION_MS) * OPACITY_FULL / (FADE_DURATION_MS as int),
            0,
            OPACITY_FULL as int,
        )
    }
}

/// Milliseconds from `since` to `now`; zero when `now` lies before `since`.
pub open spec fn elapsed_between(since: int, now: int) -> int {
    if now >= since {
        now - since
    } else {
        0
    }
}

/// The opacity after `elapsed_ms` milliseconds without an accepted keystroke.
pub fn opacity_for_elapsed(elapsed_ms: u64) -> (r: u32)
    ensures
        r as int == opacity_at(elapsed_ms as int),
        r <= OPACITY_FULL,
{
    if elapsed_ms <= FADE_START_MS {
        OPACITY_FULL
    } else if elapsed_ms >= 2 * FADE_DURATION_MS {
        proof {
            assert((400int * 1000) / 400 == 1000) by (nonlinear_arith);
            assert((elapsed_ms as int - 400) * 1000 >= 400 * 1000) by (nonlinear_arith)
                requires elapsed_ms >= 800;
            lemma_div_is_ordered(400int * 1000, (elapsed_ms as int - 400) * 1000, 400);
        }
        0
    } else {
        let d: u64 = (elapsed_ms - FADE_DURATION_MS) * (OPACITY_FULL as u64) / FADE_DURATION_MS;
        proof {
            assert(d <= 1000) by (nonlinear_arith)
                requires d == (elapsed_ms - 400) * 1000 / 400, elapsed_ms < 800;
        }
        (OPACITY_FULL as u64 - d) as u32
    }
}

/// Opacity lies between 0 and full for every elapsed time.
pub proof fn lemma_opacity_in_range(e: int)
    ensures
        0 <= opacity_at(e) <= OPACITY_FULL,
{
}

/// The fade curve: full opacity up to the fade start; never rising after it;
/// zero from `FADE_START_MS + FADE_DURATION_MS` on (already from
/// `2 * FADE_DURATION_MS` on).
pub proof fn lemma_fade_monotone(e1: int, e2: int)
    ensures
        e1 <= FADE_START_MS ==> opacity_at(e1) == OPACITY_FULL,
        FADE_START_MS < e1 <= e2 ==> opacity_at(e2) <= opacity_at(e1),
        e1 >= 2 * FADE_DURATION_MS ==> opacity_at(e1) == 0,
        e1 >= FADE_START_MS + FADE_DURATION_MS ==> opacity_at(e1) == 0,
{
    if FADE_START_MS < e1 <= e2 {
        assert((e1 - 400) * 1000 <= (e2 - 400) * 1000) by (nonlinear_arith)
            requires e1 <= e2;
        lemma_div_is_ordered((e1 - 400) * 1000, (e2 - 400) * 1000, 400);
    }
    if e1 >= 2 * FADE_DURATION_MS {
        assert((e1 - 400) * 1000 >= 400 * 1000) by (nonlinear_arith)
            requires e1 >= 800;
        lemma_div_is_ordered(400int * 1000, (e1 - 400) * 1000, 400);
    }
}

/// The alpha, out of 255, of the shown text at opacity `opacity`.
pub fn text_alpha(opacity: u32) -> (r: u8)
    requires
        opacity <= OPACITY_FULL,
    ensures
        r as int == opacity as int * 255 / (OPACITY_FULL as int),
{
    assert(opacity as int * 255 / 1000 <= 255) by (nonlinear_arith)
        requires opacity <= 1000;
    ((opacity as u64 * 255) / (OPACITY_FULL as u64)) as u8
}

/// The alpha, out of 255, of the background panel at opacity `opacity`: at
/// most 100, at full opacity.
pub fn background_alpha(opacity: u32) -> (r: u8)
    requires
        opacity <= OPACITY_FULL,
    ensures
        r as int == opacity as int * 100 / (OPACITY_FULL as int),
{
    assert(opacity as int * 100 / 1000 <= 100) by (nonlinear_arith)
        requires opacity <= 1000;
    ((opacity as u64 * 100) / (OPACITY_FULL as u64)) as u8
}

} // verus!
