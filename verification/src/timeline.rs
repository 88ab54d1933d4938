//! The slide timeline: wall-clock time to slide index and slide-local time.
//!
//! With `photo_time` milliseconds per slide, slide `i` becomes current at
//! `i * photo_time` and its local time keeps growing after the next slide
//! takes over, which is what drives its exit easing.  Local time is measured
//! in ticks of 1/1000 of a slide duration.

use vstd::prelude::*;

use crate::units::{MAX_ELAPSED_MS, MAX_PHOTO_MS, TICKS_PER_SLIDE};
use vstd::arithmetic::div_mod::{
    lemma_div_is_ordered, lemma_div_plus_one, lemma_fundamental_div_mod,
    lemma_mod_division_less_than_divisor,
};

verus! {

/// Index of the slide that is current after `elapsed_ms` milliseconds.
pub open spec fn spec_current_index(elapsed_ms: int, photo_ms: int) -> int
    recommends
        photo_ms > 0,
{
    elapsed_ms / photo_ms
}

/// Local time of slide `slide` after `elapsed_ms` milliseconds, in ticks:
/// zero before the slide becomes current, then growing without bound at a
/// rate of [`TICKS_PER_SLIDE`] per `photo_ms`.
pub open spec fn spec_local_time(elapsed_ms: int, photo_ms: int, slide: int) -> int
    recommends
        photo_ms > 0,
{
    if elapsed_ms <= slide * photo_ms {
        0
    } else {
        (elapsed_ms - slide * photo_ms) * (TICKS_PER_SLIDE as int) / photo_ms
    }
}

/// Fraction of the current slide's duration already spent, in ticks
/// (`0` to `999`): the beat phase that drives the volume envelope.
pub open spec fn spec_beat_frac(elapsed_ms: int, photo_ms: int) -> int
    recommends
        photo_ms > 0,
{
    (elapsed_ms % photo_ms) * (TICKS_PER_SLIDE as int) / photo_ms
}

/// Index of the first slide the compositor may still have to draw: the one
/// before the current slide (finishing its exit), except at the very start.
pub open spec fn spec_first_visible(elapsed_ms: int, photo_ms: int) -> int
    recommends
        photo_ms > 0,
{
    if spec_current_index(elapsed_ms, photo_ms) > 0 {
        spec_current_index(elapsed_ms, photo_ms) - 1
    } else {
        0
    }
}

pub fn current_index(elapsed_ms: u64, photo_ms: u64) -> (i: u64)
    requires
        photo_ms >= 1,
    ensures
        i == spec_current_index(elapsed_ms as int, photo_ms as int),
{
    elapsed_ms / photo_ms
}

pub fn local_time(elapsed_ms: u64, photo_ms: u64, slide: u64) -> (t: u64)
    requires
        1 <= photo_ms <= MAX_PHOTO_MS,
        elapsed_ms <= MAX_ELAPSED_MS,
        slide * photo_ms <= MAX_ELAPSED_MS + MAX_PHOTO_MS,
    ensures
        t == spec_local_time(elapsed_ms as int, photo_ms as int, slide as int),
{
    let start = slide * photo_ms;
    if elapsed_ms <= start {
        0
    } else {
        (elapsed_ms - start) * TICKS_PER_SLIDE / photo_ms
    }
}

pub fn beat_frac(elapsed_ms: u64, photo_ms: u64) -> (f: u64)
    requires
        1 <= photo_ms <= MAX_PHOTO_MS,
    ensures
        f == spec_beat_frac(elapsed_ms as int, photo_ms as int),
        f < TICKS_PER_SLIDE,
{
    let rem = elapsed_ms % photo_ms;
    proof {
        lemma_mod_division_less_than_divisor(elapsed_ms as int, photo_ms as int);
        lemma_beat_frac_in_range(elapsed_ms as int, photo_ms as int);
    }
    rem * TICKS_PER_SLIDE / photo_ms
}

pub fn first_visible(elapsed_ms: u64, photo_ms: u64) -> (i: u64)
    requires
        photo_ms >= 1,
    ensures
        i == spec_first_visible(elapsed_ms as int, photo_ms as int),
{
    let idx = elapsed_ms / photo_ms;
    if idx > 0 {
        idx - 1
    } else {
        0
    }
}

/// The beat phase always falls short of a full slide duration.
pub proof fn lemma_beat_frac_in_range(elapsed_ms: int, photo_ms: int)
    requires
        elapsed_ms >= 0,
        photo_ms > 0,
    ensures
        0 <= spec_beat_frac(elapsed_ms, photo_ms) < TICKS_PER_SLIDE,
{
    let rem = elapsed_ms % photo_ms;
    lemma_mod_division_less_than_divisor(elapsed_ms, photo_ms);
    assert(rem * (TICKS_PER_SLIDE as int) <= (photo_ms - 1) * (TICKS_PER_SLIDE as int))
        by (nonlinear_arith)
        requires
            0 <= rem <= photo_ms - 1,
    ;
    lemma_div_is_ordered(
        rem * (TICKS_PER_SLIDE as int),
        (photo_ms - 1) * (TICKS_PER_SLIDE as int),
        photo_ms,
    );
    assert((photo_ms - 1) * (TICKS_PER_SLIDE as int) / photo_ms < TICKS_PER_SLIDE) by {
        assert((photo_ms - 1) * (TICKS_PER_SLIDE as int)
            == photo_ms * (TICKS_PER_SLIDE as int) - TICKS_PER_SLIDE) by (nonlinear_arith);
        assert(photo_ms * (TICKS_PER_SLIDE as int) - TICKS_PER_SLIDE
            < photo_ms * (TICKS_PER_SLIDE as int));
        lemma_div_strictly_below_multiple(
            photo_ms * (TICKS_PER_SLIDE as int) - TICKS_PER_SLIDE,
            TICKS_PER_SLIDE as int,
            photo_ms,
        );
    }
    lemma_div_nonneg(rem * (TICKS_PER_SLIDE as int), photo_ms);
}

/// A non-negative value divided by a positive divisor is non-negative.
pub(crate) proof fn lemma_div_nonneg(x: int, d: int)
    requires
        x >= 0,
        d > 0,
    ensures
        x / d >= 0,
{
    vstd::arithmetic::div_mod::lemma_div_pos_is_pos(x, d);
}

/// Anything below `q * d` divides by `d` to below `q`.
proof fn lemma_div_strictly_below_multiple(x: int, q: int, d: int)
    requires
        0 < d,
        0 <= x < q * d,
    ensures
        x / d < q,
{
    vstd::arithmetic::mul::lemma_mul_is_commutative(q, d);
    vstd::arithmetic::div_mod::lemma_multiply_divide_lt(x, d, q);
}

/// The show starts on slide zero.
pub proof fn lemma_index_at_start(photo_ms: int)
    requires
        photo_ms > 0,
    ensures
        spec_current_index(0, photo_ms) == 0,
{
}

/// The slide index never moves backwards as time passes.
pub proof fn lemma_index_monotone(e1: int, e2: int, photo_ms: int)
    requires
        0 <= e1 <= e2,
        photo_ms > 0,
    ensures
        spec_current_index(e1, photo_ms) <= spec_current_index(e2, photo_ms),
{
    lemma_div_is_ordered(e1, e2, photo_ms);
}

/// The slide index advances by exactly one per `photo_ms` milliseconds.
pub proof fn lemma_index_one_step_per_slide(elapsed_ms: int, photo_ms: int)
    requires
        elapsed_ms >= 0,
        photo_ms > 0,
    ensures
        spec_current_index(elapsed_ms + photo_ms, photo_ms)
            == spec_current_index(elapsed_ms, photo_ms) + 1,
{
    lemma_div_plus_one(elapsed_ms, photo_ms);
}

/// A slide at or past `spec_first_visible` has spent less than two slide
/// durations on screen, so its local time stays below two thousand ticks.
pub proof fn lemma_local_time_of_visible_slide(elapsed_ms: int, photo_ms: int, slide: int)
    requires
        0 <= elapsed_ms,
        photo_ms > 0,
        slide >= spec_first_visible(elapsed_ms, photo_ms),
    ensures
        0 <= spec_local_time(elapsed_ms, photo_ms, slide) < 2 * TICKS_PER_SLIDE,
{
    let idx = spec_current_index(elapsed_ms, photo_ms);
    let start = slide * photo_ms;
    if elapsed_ms <= start {
    } else {
        lemma_fundamental_div_mod(elapsed_ms, photo_ms);
        lemma_mod_division_less_than_divisor(elapsed_ms, photo_ms);
        assert(elapsed_ms < (idx + 1) * photo_ms) by (nonlinear_arith)
            requires
                elapsed_ms == photo_ms * idx + elapsed_ms % photo_ms,
                elapsed_ms % photo_ms < photo_ms,
        ;
        assert((idx + 1) * photo_ms <= (slide + 2) * photo_ms) by (nonlinear_arith)
            requires
                idx + 1 <= slide + 2,
                photo_ms > 0,
        ;
        assert((slide + 2) * photo_ms == start + 2 * photo_ms) by (nonlinear_arith)
            requires
                start == slide * photo_ms,
        ;
        assert(elapsed_ms - start < 2 * photo_ms);
        assert((elapsed_ms - start) * (TICKS_PER_SLIDE as int)
            < (2 * TICKS_PER_SLIDE) * photo_ms) by (nonlinear_arith)
            requires
                0 <= elapsed_ms - start < 2 * photo_ms,
                photo_ms > 0,
        ;
        lemma_div_strictly_below_multiple(
            (elapsed_ms - start) * (TICKS_PER_SLIDE as int),
            2 * TICKS_PER_SLIDE as int,
            photo_ms,
        );
        lemma_div_nonneg((elapsed_ms - start) * (TICKS_PER_SLIDE as int), photo_ms);
    }
}

} // verus!
