//! The audio-sync volume envelope.
//!
//! The soundtrack ducks in over the first slide, holds full volume through
//! the interior slides, ducks out over the last slide, and is silent once
//! the show is past its last slide.  The envelope is keyed off the number of
//! slides that actually loaded, the same count the timeline runs on.

use vstd::prelude::*;

use crate::units::{TICKS_PER_SLIDE, VAL_ONE};

verus! {

/// Volume in millionths for slide `index` of `n`, at beat phase `frac`
/// ticks into the slide.
pub open spec fn spec_volume(index: int, n: int, frac: int) -> int
    recommends
        0 <= frac < TICKS_PER_SLIDE,
{
    if index >= n {
        0
    } else if index == 0 {
        frac * (VAL_ONE as int) / (TICKS_PER_SLIDE as int)
    } else if index == n - 1 {
        VAL_ONE - frac * (VAL_ONE as int) / (TICKS_PER_SLIDE as int)
    } else {
        VAL_ONE as int
    }
}

pub fn volume(index: u64, n: u64, frac: u64) -> (v: u64)
    requires
        frac < TICKS_PER_SLIDE,
    ensures
        v == spec_volume(index as int, n as int, frac as int),
        v <= VAL_ONE,
{
    proof {
        lemma_volume_bounds(index as int, n as int, frac as int);
    }
    if index >= n {
        0
    } else if index == 0 {
        frac * VAL_ONE / TICKS_PER_SLIDE
    } else if index == n - 1 {
        VAL_ONE - frac * VAL_ONE / TICKS_PER_SLIDE
    } else {
        VAL_ONE
    }
}

/// The beat phase scaled to millionths is exactly a thousand times the phase.
proof fn lemma_frac_scaled(frac: int)
    requires
        0 <= frac < TICKS_PER_SLIDE,
    ensures
        frac * (VAL_ONE as int) / (TICKS_PER_SLIDE as int) == 1000 * frac,
{
    assert(frac * (VAL_ONE as int) == (1000 * frac) * (TICKS_PER_SLIDE as int))
        by (nonlinear_arith);
    vstd::arithmetic::div_mod::lemma_div_by_multiple(1000 * frac, TICKS_PER_SLIDE as int);
}

/// The volume never escapes `[0, 1]`.
pub proof fn lemma_volume_bounds(index: int, n: int, frac: int)
    requires
        0 <= frac < TICKS_PER_SLIDE,
    ensures
        0 <= spec_volume(index, n, frac) <= VAL_ONE,
{
    lemma_frac_scaled(frac);
}

/// Interior slides play at full volume throughout, so the envelope is
/// constant — and in particular continuous — across their boundaries.
pub proof fn lemma_volume_interior(index: int, n: int, frac: int)
    requires
        0 < index < n - 1,
        0 <= frac < TICKS_PER_SLIDE,
    ensures
        spec_volume(index, n, frac) == VAL_ONE,
{
}

/// Over the first slide the volume ramps up strictly monotonically.
pub proof fn lemma_volume_first_slide_rises(n: int, f1: int, f2: int)
    requires
        n >= 1,
        0 <= f1 < f2 < TICKS_PER_SLIDE,
    ensures
        spec_volume(0, n, f1) < spec_volume(0, n, f2),
{
    lemma_frac_scaled(f1);
    lemma_frac_scaled(f2);
}

/// Over the last slide the volume ramps down strictly monotonically.
pub proof fn lemma_volume_last_slide_falls(n: int, f1: int, f2: int)
    requires
        n >= 2,
        0 <= f1 < f2 < TICKS_PER_SLIDE,
    ensures
        spec_volume(n - 1, n, f1) > spec_volume(n - 1, n, f2),
{
    lemma_frac_scaled(f1);
    lemma_frac_scaled(f2);
}

/// The ramps meet the interior plateau: the fade-in ends within one tick of
/// full volume, and the fade-out starts from exactly full volume.
pub proof fn lemma_volume_continuous_at_slide_boundaries(n: int)
    requires
        n >= 3,
    ensures
        VAL_ONE - spec_volume(0, n, TICKS_PER_SLIDE - 1) == 1000,
        spec_volume(1, n, 0) == VAL_ONE,
        spec_volume(n - 2, n, TICKS_PER_SLIDE - 1) == VAL_ONE,
        spec_volume(n - 1, n, 0) == VAL_ONE,
{
    lemma_frac_scaled(TICKS_PER_SLIDE - 1);
    lemma_frac_scaled(0);
}

} // verus!
