//! The easing curves: per transition style, pure functions of slide-local
//! time (in ticks of 1/1000 of a slide duration) to a size scale, an opacity
//! and a blur radius, all in millionths.
//!
//! * `Cut` switches hard: size and opacity are exactly one while the slide is
//!   current and exactly zero elsewhere.
//! * `Fade` crossfades: opacity climbs along a cubic s-curve to its peak at
//!   seven tenths of a slide, then descends along the mirrored curve until it
//!   dies out at 1.4 slides; size carries a small decaying bump so the
//!   incoming slide settles onto the screen.
//! * `Zoom` punches in and settles: size ramps from zero to a plateau just
//!   above cover fit within the first fifth of a slide, holds through the
//!   regime change at half a slide, and blows up towards a large exit scale
//!   once the next slide has taken over; opacity saturates almost instantly
//!   and decays to a faint floor during the exit; the blur radius stays zero
//!   while the slide is in focus and grows exponentially (doubling every 28
//!   ticks) during the exit, capped at 250.  A small linear drift keeps the
//!   later slide of an overlapping pair very slightly larger.

use vstd::prelude::*;

use crate::units::{MAX_TICKS, TICKS_PER_SLIDE, VAL_ONE};
use vstd::arithmetic::div_mod::{
    lemma_div_is_ordered, lemma_div_multiples_vanish, lemma_div_plus_one, lemma_div_pos_is_pos,
};
use vstd::arithmetic::mul::lemma_mul_is_commutative;

verus! {

/// Ticks of fade-in until the fade opacity peaks; the mirrored fade-out takes
/// as long again.
pub const FADE_WINDOW: u64 = 700;

/// `FADE_WINDOW` cubed: the denominator that normalises the fade s-curve.
pub const FADE_WINDOW_CUBED: u64 = 343_000_000;

/// Local time at which the fade opacity has died out completely.
pub const FADE_END: u64 = 1400;

/// Height of the fade style's size bump at entry (one percent).
pub const FADE_BUMP: u64 = 10_000;

/// Local time by which the fade size bump has decayed to nothing.
pub const FADE_BUMP_END: u64 = 1500;

/// `FADE_BUMP_END` squared, normalising the bump's quadratic decay.
pub const FADE_BUMP_END_SQUARED: u64 = 2_250_000;

/// Ticks of zoom entry during which the size ramps up from zero.
pub const ZOOM_RISE_END: u64 = 200;

/// `ZOOM_RISE_END` squared, normalising the entry ramp.
pub const ZOOM_RISE_END_SQUARED: u64 = 40_000;

/// Resting size of a zoomed slide while on screen: 1.035 times cover fit.
pub const ZOOM_PLATEAU: u64 = 1_035_000;

/// Local time at which the zoom exit blow-up starts.
pub const ZOOM_EXIT_START: u64 = 900;

/// Width of the zoom exit blow-up window, in ticks.
pub const ZOOM_EXIT_WINDOW: u64 = 200;

/// `ZOOM_EXIT_WINDOW` cubed, normalising the exit s-curve.
pub const ZOOM_EXIT_WINDOW_CUBED: u64 = 8_000_000;

/// Local time at which the zoom exit blow-up is complete.
pub const ZOOM_EXIT_END: u64 = 1100;

/// Size a zoomed slide blows up to as it leaves past the camera.
pub const ZOOM_TOP: u64 = 16_000_000;

/// Linear size drift per tick (0.05 per slide duration), keeping the later
/// slide of an overlapping pair slightly larger.
pub const ZOOM_DRIFT: u64 = 50;

/// Ticks until the zoom opacity saturates after entry.
pub const ZOOM_ALPHA_RISE_END: u64 = 100;

/// `ZOOM_ALPHA_RISE_END` squared, normalising the opacity ramp.
pub const ZOOM_ALPHA_RISE_END_SQUARED: u64 = 10_000;

/// Local time at which the zoom opacity starts its exit decay.
pub const ZOOM_ALPHA_FALL_START: u64 = 1000;

/// Cube of the opacity decay window (one slide duration).
pub const ZOOM_ALPHA_FALL_WINDOW_CUBED: u64 = 1_000_000_000;

/// Local time at which the zoom opacity decay bottoms out.
pub const ZOOM_ALPHA_FALL_END: u64 = 2000;

/// Faint opacity floor a zoomed slide keeps after its exit (one percent).
pub const ZOOM_ALPHA_FLOOR: u64 = 10_000;

/// Cap on the blur radius, in millionths (radius 250).
pub const BLUR_MAX: u64 = 250_000_000;

/// Ticks over which the exit blur radius doubles.
pub const BLUR_DOUBLING_TICKS: u64 = 28;

/// The cubic s-curve numerator `x^2 * (3w - 2x)`: climbs from `0` at `x = 0`
/// to `w^3` at `x = w` with zero slope at both ends.
pub open spec fn spec_smooth_rise(x: int, w: int) -> int {
    x * x * (3 * w - 2 * x)
}

/// The fade s-curve scaled to millionths over its window.
pub open spec fn spec_fade_rise(x: int) -> int {
    spec_smooth_rise(x, FADE_WINDOW as int) * (VAL_ONE as int) / (FADE_WINDOW_CUBED as int)
}

pub open spec fn spec_fade_alpha(t: int) -> int {
    if t <= 0 {
        0
    } else if t <= FADE_WINDOW {
        spec_fade_rise(t)
    } else if t < FADE_END {
        VAL_ONE - spec_fade_rise(t - FADE_WINDOW)
    } else {
        0
    }
}

pub open spec fn spec_fade_size(t: int) -> int {
    if t >= FADE_BUMP_END {
        VAL_ONE as int
    } else {
        let back = if t <= 0 {
            FADE_BUMP_END as int
        } else {
            FADE_BUMP_END - t
        };
        VAL_ONE + (FADE_BUMP as int) * (back * back) / (FADE_BUMP_END_SQUARED as int)
    }
}

pub open spec fn spec_cut_alpha(t: int) -> int {
    if 0 < t <= TICKS_PER_SLIDE {
        VAL_ONE as int
    } else {
        0
    }
}

pub open spec fn spec_cut_size(t: int) -> int {
    spec_cut_alpha(t)
}

pub open spec fn spec_zoom_size_base(t: int) -> int {
    if t <= 0 {
        0
    } else if t < ZOOM_RISE_END {
        let back = ZOOM_RISE_END - t;
        ZOOM_PLATEAU - (ZOOM_PLATEAU as int) * (back * back) / (ZOOM_RISE_END_SQUARED as int)
    } else if t <= ZOOM_EXIT_START {
        ZOOM_PLATEAU as int
    } else if t < ZOOM_EXIT_END {
        ZOOM_PLATEAU + (ZOOM_TOP - ZOOM_PLATEAU) * spec_smooth_rise(
            t - ZOOM_EXIT_START,
            ZOOM_EXIT_WINDOW as int,
        ) / (ZOOM_EXIT_WINDOW_CUBED as int)
    } else {
        ZOOM_TOP as int
    }
}

pub open spec fn spec_zoom_size(t: int) -> int {
    if t <= 0 {
        0
    } else {
        spec_zoom_size_base(t) + (ZOOM_DRIFT as int) * t
    }
}

pub open spec fn spec_zoom_alpha(t: int) -> int {
    if t <= 0 {
        0
    } else if t < ZOOM_ALPHA_RISE_END {
        let back = ZOOM_ALPHA_RISE_END - t;
        VAL_ONE - (VAL_ONE as int) * (back * back) / (ZOOM_ALPHA_RISE_END_SQUARED as int)
    } else if t <= ZOOM_ALPHA_FALL_START {
        VAL_ONE as int
    } else if t < ZOOM_ALPHA_FALL_END {
        ZOOM_ALPHA_FLOOR + (VAL_ONE - ZOOM_ALPHA_FLOOR) * ((ZOOM_ALPHA_FALL_WINDOW_CUBED as int)
            - spec_smooth_rise(t - ZOOM_ALPHA_FALL_START, TICKS_PER_SLIDE as int)) / (
        ZOOM_ALPHA_FALL_WINDOW_CUBED as int)
    } else {
        ZOOM_ALPHA_FLOOR as int
    }
}

/// Two to the power `k` for the small exponents the blur curve uses.
pub open spec fn spec_pow2_small(k: int) -> int {
    if k <= 0 {
        1
    } else if k == 1 {
        2
    } else if k == 2 {
        4
    } else if k == 3 {
        8
    } else if k == 4 {
        16
    } else if k == 5 {
        32
    } else if k == 6 {
        64
    } else if k == 7 {
        128
    } else {
        256
    }
}

pub open spec fn spec_zoom_blur(t: int) -> int {
    if t <= TICKS_PER_SLIDE {
        0
    } else {
        let x = t - TICKS_PER_SLIDE;
        let k = x / (BLUR_DOUBLING_TICKS as int);
        let r = x % (BLUR_DOUBLING_TICKS as int);
        if k >= 8 {
            BLUR_MAX as int
        } else {
            let p = spec_pow2_small(k) * (VAL_ONE as int);
            let raw = p + p * r / (BLUR_DOUBLING_TICKS as int);
            if raw < BLUR_MAX {
                raw
            } else {
                BLUR_MAX as int
            }
        }
    }
}

/// The transition style of the whole run, selected once at startup.
#[derive(Clone, Copy, PartialEq, Eq, Structural, Debug)]
pub enum Transition {
    Zoom,
    Fade,
    Cut,
}

impl Transition {
    pub open spec fn spec_size(self, t: int) -> int {
        match self {
            Transition::Zoom => spec_zoom_size(t),
            Transition::Fade => spec_fade_size(t),
            Transition::Cut => spec_cut_size(t),
        }
    }

    pub open spec fn spec_alpha(self, t: int) -> int {
        match self {
            Transition::Zoom => spec_zoom_alpha(t),
            Transition::Fade => spec_fade_alpha(t),
            Transition::Cut => spec_cut_alpha(t),
        }
    }

    pub open spec fn spec_blur(self, t: int) -> int {
        match self {
            Transition::Zoom => spec_zoom_blur(t),
            Transition::Fade => 0,
            Transition::Cut => 0,
        }
    }

    /// Size scale of a slide at local time `t`, in millionths of cover fit.
    pub fn size(self, t: u64) -> (s: u64)
        requires
            t <= MAX_TICKS,
        ensures
            s == self.spec_size(t as int),
    {
        match self {
            Transition::Zoom => size_zoom(t),
            Transition::Fade => size_fade(t),
            Transition::Cut => size_cut(t),
        }
    }

    /// Opacity of a slide at local time `t`, in millionths.
    pub fn alpha(self, t: u64) -> (a: u64)
        ensures
            a == self.spec_alpha(t as int),
    {
        match self {
            Transition::Zoom => alpha_zoom(t),
            Transition::Fade => alpha_fade(t),
            Transition::Cut => alpha_cut(t),
        }
    }

    /// Blur radius of a slide at local time `t`, in millionths.
    pub fn blur(self, t: u64) -> (b: u64)
        ensures
            b == self.spec_blur(t as int),
    {
        match self {
            Transition::Zoom => blur_zoom(t),
            Transition::Fade => blur_fade(t),
            Transition::Cut => blur_cut(t),
        }
    }
}

impl Default for Transition {
    /// Anything but a recognised style token means the hard cut.
    fn default() -> (t: Self)
        ensures
            t == Transition::Cut,
    {
        Transition::Cut
    }
}

/// A fraction `num / den` of a non-negative quantity `f` is between `0` and
/// `f` itself.
proof fn lemma_scaled_fraction_bounds(f: int, num: int, den: int)
    requires
        0 <= f,
        0 < den,
        0 <= num <= den,
    ensures
        0 <= f * num / den <= f,
{
    assert(0 <= f * num <= f * den) by (nonlinear_arith)
        requires
            0 <= f,
            0 <= num <= den,
    ;
    lemma_div_pos_is_pos(f * num, den);
    lemma_div_is_ordered(f * num, f * den, den);
    lemma_mul_is_commutative(f, den);
    lemma_div_multiples_vanish(f, den);
}

/// The s-curve numerator stays between `0` and `w^3` over its window.
proof fn lemma_smooth_rise_bounds(x: int, w: int)
    requires
        0 <= x <= w,
    ensures
        0 <= spec_smooth_rise(x, w) <= w * w * w,
{
    assert(w * w * w - x * x * (3 * w - 2 * x) == (w - x) * (w - x) * (w + 2 * x))
        by (nonlinear_arith);
    assert((w - x) * (w - x) * (w + 2 * x) >= 0) by (nonlinear_arith)
        requires
            0 <= x <= w,
    ;
    assert(x * x * (3 * w - 2 * x) >= 0) by (nonlinear_arith)
        requires
            0 <= x <= w,
    ;
}

/// Each tick, the s-curve numerator climbs by at least `3w - 2`.
proof fn lemma_smooth_rise_step(x: int, w: int)
    requires
        0 <= x < w,
    ensures
        spec_smooth_rise(x, w) + 3 * w - 2 <= spec_smooth_rise(x + 1, w),
{
    assert((x + 1) * (x + 1) * (3 * w - 2 * (x + 1)) - x * x * (3 * w - 2 * x) == 6 * x * (w - 1
        - x) + 3 * w - 2) by (nonlinear_arith);
    assert(6 * x * (w - 1 - x) >= 0) by (nonlinear_arith)
        requires
            0 <= x <= w - 1,
    ;
}

/// If `b` exceeds `a` by at least the divisor, their quotients differ.
proof fn lemma_div_grows_across_gap(a: int, b: int, d: int)
    requires
        0 <= a,
        a + d <= b,
        0 < d,
    ensures
        a / d < b / d,
{
    lemma_div_plus_one(a, d);
    lemma_div_is_ordered(a + d, b, d);
}

/// The scaled fade s-curve stays within one over its window.
proof fn lemma_fade_rise_bounds(x: int)
    requires
        0 <= x <= FADE_WINDOW,
    ensures
        0 <= spec_fade_rise(x) <= VAL_ONE,
{
    let w = FADE_WINDOW as int;
    let g = spec_smooth_rise(x, w);
    lemma_smooth_rise_bounds(x, w);
    assert(w * w * w == FADE_WINDOW_CUBED);
    assert(g * (VAL_ONE as int) == (VAL_ONE as int) * g) by (nonlinear_arith);
    lemma_scaled_fraction_bounds(VAL_ONE as int, g, FADE_WINDOW_CUBED as int);
}

/// The scaled fade s-curve climbs strictly at every tick of its window.
proof fn lemma_fade_rise_step(x: int)
    requires
        0 <= x < FADE_WINDOW,
    ensures
        spec_fade_rise(x) < spec_fade_rise(x + 1),
{
    let w = FADE_WINDOW as int;
    let v = VAL_ONE as int;
    let d = FADE_WINDOW_CUBED as int;
    let g0 = spec_smooth_rise(x, w);
    let g1 = spec_smooth_rise(x + 1, w);
    lemma_smooth_rise_step(x, w);
    lemma_smooth_rise_bounds(x, w);
    assert(g0 * v + d <= g1 * v) by (nonlinear_arith)
        requires
            g0 + 2098 <= g1,
            v == 1_000_000,
            d == 343_000_000,
    ;
    assert(g0 * v >= 0) by (nonlinear_arith)
        requires
            g0 >= 0,
            v == 1_000_000,
    ;
    lemma_div_grows_across_gap(g0 * v, g1 * v, d);
}

/// The scaled fade s-curve is strictly monotone over its window.
proof fn lemma_fade_rise_strictly_monotone(x1: int, x2: int)
    requires
        0 <= x1 < x2 <= FADE_WINDOW,
    ensures
        spec_fade_rise(x1) < spec_fade_rise(x2),
    decreases x2 - x1,
{
    if x1 + 1 == x2 {
        lemma_fade_rise_step(x1);
    } else {
        lemma_fade_rise_strictly_monotone(x1, x2 - 1);
        lemma_fade_rise_step(x2 - 1);
    }
}

/// The fade s-curve starts at zero and tops out at exactly one.
proof fn lemma_fade_rise_endpoints()
    ensures
        spec_fade_rise(0) == 0,
        spec_fade_rise(FADE_WINDOW as int) == VAL_ONE,
{
    let w = FADE_WINDOW as int;
    let v = VAL_ONE as int;
    let d = FADE_WINDOW_CUBED as int;
    assert(spec_smooth_rise(0, w) == 0) by (nonlinear_arith);
    assert(spec_smooth_rise(w, w) == d) by (nonlinear_arith)
        requires
            w == 700,
            d == 343_000_000,
    ;
    lemma_div_pos_is_pos(0, d);
    lemma_div_is_ordered(0, 0, d);
    assert(0int / d == 0) by {
        vstd::arithmetic::div_mod::lemma_div_of0(d);
    }
    assert(d * v == v * d) by (nonlinear_arith);
    assert(d * v / d == v) by {
        lemma_mul_is_commutative(d, v);
        lemma_div_multiples_vanish(v, d);
    }
}

/// While fading in, the fade opacity climbs strictly: it rises all the way
/// to its peak at `FADE_WINDOW` ticks.
pub proof fn lemma_fade_alpha_strictly_rising(t1: int, t2: int)
    requires
        0 <= t1 < t2 <= FADE_WINDOW,
    ensures
        spec_fade_alpha(t1) < spec_fade_alpha(t2),
{
    lemma_fade_rise_endpoints();
    if t1 == 0 {
        lemma_fade_rise_strictly_monotone(0, t2);
    } else {
        lemma_fade_rise_strictly_monotone(t1, t2);
    }
}

/// While fading out, the fade opacity descends strictly until it dies out.
pub proof fn lemma_fade_alpha_strictly_falling(t1: int, t2: int)
    requires
        FADE_WINDOW <= t1 < t2 <= FADE_END,
    ensures
        spec_fade_alpha(t1) > spec_fade_alpha(t2),
{
    lemma_fade_rise_endpoints();
    assert(spec_fade_alpha(t1) == VAL_ONE - spec_fade_rise(t1 - FADE_WINDOW));
    assert(spec_fade_alpha(t2) == VAL_ONE - spec_fade_rise(t2 - FADE_WINDOW));
    lemma_fade_rise_strictly_monotone(t1 - FADE_WINDOW as int, t2 - FADE_WINDOW as int);
}

/// The fade opacity is unimodal: one peak, strictly inside the slide's own
/// duration, and strictly below the peak everywhere else.
pub proof fn lemma_fade_alpha_peak(t: int)
    requires
        t >= 0,
    ensures
        0 < FADE_WINDOW < TICKS_PER_SLIDE,
        spec_fade_alpha(FADE_WINDOW as int) == VAL_ONE,
        t != FADE_WINDOW ==> spec_fade_alpha(t) < VAL_ONE,
{
    lemma_fade_rise_endpoints();
    if t < FADE_WINDOW {
        lemma_fade_alpha_strictly_rising(t, FADE_WINDOW as int);
    } else if FADE_WINDOW < t && t < FADE_END {
        lemma_fade_alpha_strictly_falling(FADE_WINDOW as int, t);
    }
}

/// The fade opacity is symmetric about its peak: the mirrored halves of
/// the crossfade agree to within one millionth.
pub proof fn lemma_fade_alpha_symmetric_about_peak(u: int)
    requires
        0 <= u <= FADE_WINDOW,
    ensures
        spec_fade_alpha(FADE_WINDOW - u) <= spec_fade_alpha(FADE_WINDOW + u),
        spec_fade_alpha(FADE_WINDOW + u) <= spec_fade_alpha(FADE_WINDOW - u) + 1,
{
    let w = FADE_WINDOW as int;
    let v = VAL_ONE as int;
    let d = FADE_WINDOW_CUBED as int;
    let g = spec_smooth_rise(u, w);
    lemma_smooth_rise_bounds(u, w);
    assert(w * w * w == d) by (nonlinear_arith)
        requires
            w == 700,
            d == 343_000_000,
    ;
    assert(u * u * (3 * w - 2 * u) + (w - u) * (w - u) * (3 * w - 2 * (w - u)) == w * w * w)
        by (nonlinear_arith);
    assert(g + spec_smooth_rise(w - u, w) == d);
    let a = g * v;
    let b = (d - g) * v;
    assert(a + b == d * v && a >= 0 && b >= 0) by (nonlinear_arith)
        requires
            a == g * v,
            b == (d - g) * v,
            0 <= g <= d,
            v == 1_000_000,
    ;
    let qa = a / d;
    let qb = b / d;
    vstd::arithmetic::div_mod::lemma_fundamental_div_mod(a, d);
    vstd::arithmetic::div_mod::lemma_fundamental_div_mod(b, d);
    vstd::arithmetic::div_mod::lemma_mod_division_less_than_divisor(a, d);
    vstd::arithmetic::div_mod::lemma_mod_division_less_than_divisor(b, d);
    lemma_div_pos_is_pos(a, d);
    lemma_div_pos_is_pos(b, d);
    let m = v - qa - qb;
    assert(d * m == a % d + b % d) by (nonlinear_arith)
        requires
            a == d * qa + a % d,
            b == d * qb + b % d,
            a + b == d * v,
            m == v - qa - qb,
    ;
    assert(0 <= m <= 1) by (nonlinear_arith)
        requires
            d * m == a % d + b % d,
            0 <= a % d < d,
            0 <= b % d < d,
            d == 343_000_000,
    ;
    // The two halves of the crossfade are exactly these quotients.
    lemma_fade_rise_endpoints();
    assert(spec_fade_rise(u) == qa);
    assert(spec_fade_rise(w - u) == qb) by {
        assert(spec_smooth_rise(w - u, w) * v == b) by (nonlinear_arith)
            requires
                spec_smooth_rise(w - u, w) == d - g,
                b == (d - g) * v,
        ;
    }
    if u == w {
        assert(spec_fade_alpha(0) == 0);
        assert(qb == 0) by {
            vstd::arithmetic::div_mod::lemma_div_of0(d);
            assert(b == 0) by (nonlinear_arith)
                requires
                    b == (d - g) * v,
                    g == d,
            ;
        }
        assert(spec_fade_alpha(w + u) == 0);
    } else {
        assert(spec_fade_alpha(w - u) == qb);
        assert(spec_fade_alpha(w + u) == v - qa);
    }
}

/// Opacity never escapes `[0, 1]`, whatever the style and the time.
pub proof fn lemma_alpha_within_unit(style: Transition, t: int)
    ensures
        0 <= style.spec_alpha(t) <= VAL_ONE,
{
    match style {
        Transition::Cut => {
        },
        Transition::Fade => {
            if 0 < t <= FADE_WINDOW {
                lemma_fade_rise_bounds(t);
            } else if FADE_WINDOW < t && t < FADE_END {
                lemma_fade_rise_bounds(t - FADE_WINDOW as int);
            }
        },
        Transition::Zoom => {
            if 0 < t && t < ZOOM_ALPHA_RISE_END {
                let back = ZOOM_ALPHA_RISE_END - t;
                assert(0 <= back * back <= ZOOM_ALPHA_RISE_END_SQUARED) by (nonlinear_arith)
                    requires
                        0 < back <= 100,
                ;
                lemma_scaled_fraction_bounds(
                    VAL_ONE as int,
                    back * back,
                    ZOOM_ALPHA_RISE_END_SQUARED as int,
                );
            } else if ZOOM_ALPHA_FALL_START < t && t < ZOOM_ALPHA_FALL_END {
                let g = spec_smooth_rise(t - ZOOM_ALPHA_FALL_START, TICKS_PER_SLIDE as int);
                lemma_smooth_rise_bounds(t - ZOOM_ALPHA_FALL_START as int, TICKS_PER_SLIDE as int);
                assert((TICKS_PER_SLIDE as int) * (TICKS_PER_SLIDE as int) * (TICKS_PER_SLIDE
                    as int) == ZOOM_ALPHA_FALL_WINDOW_CUBED);
                lemma_scaled_fraction_bounds(
                    (VAL_ONE - ZOOM_ALPHA_FLOOR) as int,
                    (ZOOM_ALPHA_FALL_WINDOW_CUBED as int) - g,
                    ZOOM_ALPHA_FALL_WINDOW_CUBED as int,
                );
            }
        },
    }
}

/// Cut switches hard: full opacity while the slide is current, zero
/// everywhere else, with no interpolation.
pub proof fn lemma_cut_alpha_is_a_hard_switch(t: int)
    ensures
        0 < t <= TICKS_PER_SLIDE ==> spec_cut_alpha(t) == VAL_ONE,
        !(0 < t <= TICKS_PER_SLIDE) ==> spec_cut_alpha(t) == 0,
{
}

/// Across the zoom regime change at half a slide, the size is flat but for
/// its constant drift: consecutive ticks differ by exactly `ZOOM_DRIFT`, so
/// the entry ramp hands over to the exit curve with no pop.
pub proof fn lemma_zoom_size_continuous_at_regime_change(t: int)
    requires
        ZOOM_RISE_END <= t < ZOOM_EXIT_START,
    ensures
        spec_zoom_size(t + 1) - spec_zoom_size(t) == ZOOM_DRIFT,
{
    assert((ZOOM_DRIFT as int) * (t + 1) - (ZOOM_DRIFT as int) * t == ZOOM_DRIFT)
        by (nonlinear_arith);
}

/// The size scale stays within `[0, ZOOM_TOP + drift]` for every style.
pub proof fn lemma_size_bounded(style: Transition, t: int)
    requires
        0 <= t,
    ensures
        0 <= style.spec_size(t) <= ZOOM_TOP + (ZOOM_DRIFT as int) * t,
{
    assert((ZOOM_DRIFT as int) * t >= 0) by (nonlinear_arith)
        requires
            t >= 0,
    ;
    match style {
        Transition::Cut => {
        },
        Transition::Fade => {
            if t < FADE_BUMP_END {
                let back = if t <= 0 {
                    FADE_BUMP_END as int
                } else {
                    FADE_BUMP_END - t
                };
                assert(0 <= back * back <= FADE_BUMP_END_SQUARED) by (nonlinear_arith)
                    requires
                        0 < back <= 1500,
                ;
                lemma_scaled_fraction_bounds(
                    FADE_BUMP as int,
                    back * back,
                    FADE_BUMP_END_SQUARED as int,
                );
            }
        },
        Transition::Zoom => {
            if 0 < t && t < ZOOM_RISE_END {
                let back = ZOOM_RISE_END - t;
                assert(0 <= back * back <= ZOOM_RISE_END_SQUARED) by (nonlinear_arith)
                    requires
                        0 < back <= 200,
                ;
                lemma_scaled_fraction_bounds(
                    ZOOM_PLATEAU as int,
                    back * back,
                    ZOOM_RISE_END_SQUARED as int,
                );
            } else if ZOOM_EXIT_START < t && t < ZOOM_EXIT_END {
                let g = spec_smooth_rise(t - ZOOM_EXIT_START, ZOOM_EXIT_WINDOW as int);
                lemma_smooth_rise_bounds(t - ZOOM_EXIT_START as int, ZOOM_EXIT_WINDOW as int);
                assert((ZOOM_EXIT_WINDOW as int) * (ZOOM_EXIT_WINDOW as int) * (ZOOM_EXIT_WINDOW
                    as int) == ZOOM_EXIT_WINDOW_CUBED);
                lemma_scaled_fraction_bounds(
                    (ZOOM_TOP - ZOOM_PLATEAU) as int,
                    g,
                    ZOOM_EXIT_WINDOW_CUBED as int,
                );
            }
        },
    }
}

/// The blur radius never exceeds its cap, whatever the style and the time.
pub proof fn lemma_blur_bounded(style: Transition, t: int)
    ensures
        0 <= style.spec_blur(t) <= BLUR_MAX,
{
    if style is Zoom && t > TICKS_PER_SLIDE {
        let x = t - TICKS_PER_SLIDE;
        let k = x / (BLUR_DOUBLING_TICKS as int);
        let r = x % (BLUR_DOUBLING_TICKS as int);
        if k < 8 {
            vstd::arithmetic::div_mod::lemma_mod_division_less_than_divisor(
                x,
                BLUR_DOUBLING_TICKS as int,
            );
            let p = spec_pow2_small(k) * (VAL_ONE as int);
            lemma_div_pos_is_pos(x, BLUR_DOUBLING_TICKS as int);
            lemma_scaled_fraction_bounds(p, r, BLUR_DOUBLING_TICKS as int);
        }
    }
}

fn smooth_rise_part(x: u64, w: u64) -> (r: u64)
    requires
        x <= w,
        w <= TICKS_PER_SLIDE,
    ensures
        r == spec_smooth_rise(x as int, w as int),
        r <= 3_000_000_000,
{
    proof {
        assert(x * x <= 1_000_000 && x * x * (3 * w - 2 * x) <= 3_000_000_000 && 0 <= x * x * (3
            * w - 2 * x)) by (nonlinear_arith)
            requires
                0 <= x <= w <= 1000,
        ;
    }
    x * x * (3 * w - 2 * x)
}

pub fn alpha_cut(t: u64) -> (a: u64)
    ensures
        a == spec_cut_alpha(t as int),
{
    if 0 < t && t <= TICKS_PER_SLIDE {
        VAL_ONE
    } else {
        0
    }
}

pub fn size_cut(t: u64) -> (s: u64)
    ensures
        s == spec_cut_size(t as int),
{
    alpha_cut(t)
}

pub fn blur_cut(_t: u64) -> (b: u64)
    ensures
        b == 0,
{
    0
}

pub fn alpha_fade(t: u64) -> (a: u64)
    ensures
        a == spec_fade_alpha(t as int),
{
    if t == 0 {
        0
    } else if t <= FADE_WINDOW {
        let g = smooth_rise_part(t, FADE_WINDOW);
        proof {
            lemma_smooth_rise_bounds(t as int, FADE_WINDOW as int);
        }
        g * VAL_ONE / FADE_WINDOW_CUBED
    } else if t < FADE_END {
        let g = smooth_rise_part(t - FADE_WINDOW, FADE_WINDOW);
        proof {
            lemma_fade_rise_bounds(t - FADE_WINDOW as int);
        }
        VAL_ONE - g * VAL_ONE / FADE_WINDOW_CUBED
    } else {
        0
    }
}

pub fn size_fade(t: u64) -> (s: u64)
    ensures
        s == spec_fade_size(t as int),
{
    if t >= FADE_BUMP_END {
        VAL_ONE
    } else {
        let back = FADE_BUMP_END - t;
        proof {
            assert(0 <= back * back <= FADE_BUMP_END_SQUARED) by (nonlinear_arith)
                requires
                    0 < back <= 1500,
            ;
            lemma_scaled_fraction_bounds(
                FADE_BUMP as int,
                (back * back) as int,
                FADE_BUMP_END_SQUARED as int,
            );
        }
        FADE_BUMP * (back * back) / FADE_BUMP_END_SQUARED + VAL_ONE
    }
}

pub fn blur_fade(_t: u64) -> (b: u64)
    ensures
        b == 0,
{
    0
}

pub fn alpha_zoom(t: u64) -> (a: u64)
    ensures
        a == spec_zoom_alpha(t as int),
{
    if t == 0 {
        0
    } else if t < ZOOM_ALPHA_RISE_END {
        let back = ZOOM_ALPHA_RISE_END - t;
        proof {
            assert(0 <= back * back <= ZOOM_ALPHA_RISE_END_SQUARED) by (nonlinear_arith)
                requires
                    0 < back <= 100,
            ;
            lemma_scaled_fraction_bounds(
                VAL_ONE as int,
                (back * back) as int,
                ZOOM_ALPHA_RISE_END_SQUARED as int,
            );
        }
        VAL_ONE - VAL_ONE * (back * back) / ZOOM_ALPHA_RISE_END_SQUARED
    } else if t <= ZOOM_ALPHA_FALL_START {
        VAL_ONE
    } else if t < ZOOM_ALPHA_FALL_END {
        let g = smooth_rise_part(t - ZOOM_ALPHA_FALL_START, TICKS_PER_SLIDE);
        proof {
            lemma_smooth_rise_bounds(t - ZOOM_ALPHA_FALL_START as int, TICKS_PER_SLIDE as int);
        }
        ZOOM_ALPHA_FLOOR + (VAL_ONE - ZOOM_ALPHA_FLOOR) * (ZOOM_ALPHA_FALL_WINDOW_CUBED - g)
            / ZOOM_ALPHA_FALL_WINDOW_CUBED
    } else {
        ZOOM_ALPHA_FLOOR
    }
}

pub fn size_zoom(t: u64) -> (s: u64)
    requires
        t <= MAX_TICKS,
    ensures
        s == spec_zoom_size(t as int),
{
    if t == 0 {
        0
    } else if t < ZOOM_RISE_END {
        let back = ZOOM_RISE_END - t;
        proof {
            assert(0 <= back * back <= ZOOM_RISE_END_SQUARED) by (nonlinear_arith)
                requires
                    0 < back <= 200,
            ;
            lemma_scaled_fraction_bounds(
                ZOOM_PLATEAU as int,
                (back * back) as int,
                ZOOM_RISE_END_SQUARED as int,
            );
        }
        ZOOM_PLATEAU - ZOOM_PLATEAU * (back * back) / ZOOM_RISE_END_SQUARED + ZOOM_DRIFT * t
    } else if t <= ZOOM_EXIT_START {
        ZOOM_PLATEAU + ZOOM_DRIFT * t
    } else if t < ZOOM_EXIT_END {
        let g = smooth_rise_part(t - ZOOM_EXIT_START, ZOOM_EXIT_WINDOW);
        proof {
            lemma_smooth_rise_bounds(t - ZOOM_EXIT_START as int, ZOOM_EXIT_WINDOW as int);
            assert((ZOOM_EXIT_WINDOW as int) * (ZOOM_EXIT_WINDOW as int) * (ZOOM_EXIT_WINDOW
                as int) == ZOOM_EXIT_WINDOW_CUBED) by (nonlinear_arith);
            lemma_scaled_fraction_bounds(
                (ZOOM_TOP - ZOOM_PLATEAU) as int,
                g as int,
                ZOOM_EXIT_WINDOW_CUBED as int,
            );
        }
        ZOOM_PLATEAU + (ZOOM_TOP - ZOOM_PLATEAU) * g / ZOOM_EXIT_WINDOW_CUBED + ZOOM_DRIFT * t
    } else {
        ZOOM_TOP + ZOOM_DRIFT * t
    }
}

pub fn blur_zoom(t: u64) -> (b: u64)
    ensures
        b == spec_zoom_blur(t as int),
{
    if t <= TICKS_PER_SLIDE {
        0
    } else {
        let x = t - TICKS_PER_SLIDE;
        let k = x / BLUR_DOUBLING_TICKS;
        let r = x % BLUR_DOUBLING_TICKS;
        if k >= 8 {
            BLUR_MAX
        } else {
            let p = pow2_small(k) * VAL_ONE;
            proof {
                assert(p * r <= 3_456_000_000) by (nonlinear_arith)
                    requires
                        p <= 128_000_000,
                        r < 28,
                        0 <= r,
                ;
                lemma_scaled_fraction_bounds(p as int, r as int, BLUR_DOUBLING_TICKS as int);
            }
            let raw = p + p * r / BLUR_DOUBLING_TICKS;
            if raw < BLUR_MAX {
                raw
            } else {
                BLUR_MAX
            }
        }
    }
}

fn pow2_small(k: u64) -> (p: u64)
    ensures
        p == spec_pow2_small(k as int),
{
    if k == 0 {
        1
    } else if k == 1 {
        2
    } else if k == 2 {
        4
    } else if k == 3 {
        8
    } else if k == 4 {
        16
    } else if k == 5 {
        32
    } else if k == 6 {
        64
    } else if k == 7 {
        128
    } else {
        256
    }
}

} // verus!
