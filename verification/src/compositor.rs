//! The compositor: turns the timeline's slide window into the frame's draw
//! operations.
//!
//! Each frame, for the at most two slides still on screen, in increasing
//! index order: evaluate the style's easing curves, skip fully transparent
//! slides, and emit one optional blurred backdrop (while the sharp image is
//! still smaller than cover fit) followed by the sharp image itself, drawn
//! directly while in focus or through the blur post-process while out of
//! focus.  Every geometric quantity is in millionths of a pixel, centered on
//! the screen midpoint.

use vstd::prelude::*;

use crate::easing::{Transition, ZOOM_DRIFT, ZOOM_TOP};
use crate::timeline::{
    lemma_div_nonneg, lemma_local_time_of_visible_slide, spec_current_index, spec_first_visible,
    spec_local_time,
};
use crate::timeline;
use crate::units::{
    ALPHA_SKIP, BACKDROP_MIN_ALPHA, MAX_ELAPSED_MS, MAX_IMAGE_DIM, MAX_PHOTO_MS, MAX_SCREEN_DIM,
    TICKS_PER_SLIDE, VAL_ONE,
};
use vstd::arithmetic::div_mod::{
    lemma_div_is_ordered, lemma_div_nonincreasing, lemma_fundamental_div_mod,
    lemma_mod_division_less_than_divisor,
};

verus! {

/// Width and height of one decoded image, in pixels.
#[derive(Clone, Copy, PartialEq, Eq, Structural, Debug)]
pub struct SlideDims {
    pub width: u32,
    pub height: u32,
}

impl SlideDims {
    /// Dimensions the engine accepts: at least one pixel each way, and small
    /// enough that all position arithmetic stays within machine integers.
    pub open spec fn spec_valid(self) -> bool {
        1 <= self.width <= MAX_IMAGE_DIM && 1 <= self.height <= MAX_IMAGE_DIM
    }
}

/// One textured quad to draw, in the order the operations are handed out.
#[derive(Clone, Copy, PartialEq, Eq, Structural, Debug)]
pub struct DrawOp {
    /// Index into the list of loaded slides.
    pub slide: usize,
    /// Draw the slide's pre-blurred texture instead of the sharp one.
    pub blurred_texture: bool,
    /// Top-left corner, in millionths of a pixel; may be negative.
    pub x: i64,
    /// Top-left corner, in millionths of a pixel; may be negative.
    pub y: i64,
    /// Uniform texture scale, in millionths.
    pub scale: u64,
    /// Opacity, in millionths.
    pub alpha: u64,
    /// Route this draw through the blur post-process.
    pub shader_blur: bool,
    /// Radius uniform for the blur post-process, in millionths.
    pub blur_radius: u64,
}

/// Once the beat is past the slides, a zoomed slide's exit opacity snaps:
/// anything below this many millionths is forced straight to zero.  The
/// threshold is where an opacity raised to the 500th power first falls below
/// one half.
pub const ZOOM_SNAP_KEEP: u64 = 998_614;

/// Ceiling on any effective scale the compositor computes, in millionths.
pub const MAX_EFF_SCALE: u64 = 300_000_000_000;

/// The cover-fit scale: the smallest uniform scale at which the image fully
/// covers the screen, in millionths.
pub open spec fn spec_cover_scale(screen_w: int, screen_h: int, dims: SlideDims) -> int {
    let sx = screen_w * (VAL_ONE as int) / (dims.width as int);
    let sy = screen_h * (VAL_ONE as int) / (dims.height as int);
    if sx < sy {
        sy
    } else {
        sx
    }
}

/// Top-left coordinate that centers a span of `image` pixels at scale
/// `scale` (millionths) on a screen span of `screen` pixels.
pub open spec fn spec_centered_pos(screen: int, image: int, scale: int) -> int {
    screen * (VAL_ONE as int) / 2 - scale * image / 2
}

/// Opacity of the blurred backdrop: twice the local time, clamped to one.
pub open spec fn spec_backdrop_alpha(t: int) -> int {
    if 2000 * t < VAL_ONE {
        2000 * t
    } else {
        VAL_ONE as int
    }
}

/// The backdrop is drawn only while the sharp image is smaller than cover
/// fit, the beat has not yet moved past the slides, and the backdrop is not
/// transparent itself.
pub open spec fn spec_has_backdrop(
    style: Transition,
    t: int,
    current_index: int,
    n: int,
) -> bool {
    style.spec_size(t) < VAL_ONE && current_index < n && spec_backdrop_alpha(t)
        > BACKDROP_MIN_ALPHA
}

/// Exit opacity once the beat is past the slides: for the zoom style the
/// lingering fade is snapped to transparent (the 500th-power snap), other
/// styles keep their curve.
pub open spec fn spec_exit_snap(style: Transition, current_index: int, n: int, a: int) -> int {
    if style is Zoom && current_index >= n {
        if a >= ZOOM_SNAP_KEEP {
            a
        } else {
            0
        }
    } else {
        a
    }
}

pub open spec fn spec_backdrop_op(slide: int, t: int, sw: int, sh: int, dims: SlideDims) -> DrawOp {
    let cover = spec_cover_scale(sw, sh, dims);
    DrawOp {
        slide: slide as usize,
        blurred_texture: true,
        x: spec_centered_pos(sw, dims.width as int, cover) as i64,
        y: spec_centered_pos(sh, dims.height as int, cover) as i64,
        scale: cover as u64,
        alpha: spec_backdrop_alpha(t) as u64,
        shader_blur: false,
        blur_radius: 0,
    }
}

pub open spec fn spec_main_op(
    style: Transition,
    slide: int,
    t: int,
    current_index: int,
    n: int,
    sw: int,
    sh: int,
    dims: SlideDims,
) -> DrawOp {
    let a = style.spec_alpha(t);
    let b = style.spec_blur(t);
    let eff = style.spec_size(t) * spec_cover_scale(sw, sh, dims) / (VAL_ONE as int);
    DrawOp {
        slide: slide as usize,
        blurred_texture: false,
        x: spec_centered_pos(sw, dims.width as int, eff) as i64,
        y: spec_centered_pos(sh, dims.height as int, eff) as i64,
        scale: eff as u64,
        alpha: if b < VAL_ONE {
            a as u64
        } else {
            spec_exit_snap(style, current_index, n, a) as u64
        },
        shader_blur: b >= VAL_ONE,
        blur_radius: if b < VAL_ONE {
            0
        } else {
            b as u64
        },
    }
}

/// All draw operations one slide contributes to the frame: nothing when it
/// is fully transparent, else its optional backdrop followed by the sharp
/// image.
pub open spec fn spec_slide_ops(
    style: Transition,
    slide: int,
    t: int,
    current_index: int,
    n: int,
    sw: int,
    sh: int,
    dims: SlideDims,
) -> Seq<DrawOp> {
    if style.spec_alpha(t) < ALPHA_SKIP {
        Seq::empty()
    } else {
        let main = seq![spec_main_op(style, slide, t, current_index, n, sw, sh, dims)];
        if spec_has_backdrop(style, t, current_index, n) {
            seq![spec_backdrop_op(slide, t, sw, sh, dims)] + main
        } else {
            main
        }
    }
}

/// The whole frame: the operations of the at most two slides still on
/// screen, in increasing index order.
pub open spec fn spec_frame_ops(
    style: Transition,
    elapsed_ms: int,
    photo_ms: int,
    sw: int,
    sh: int,
    dims: Seq<SlideDims>,
) -> Seq<DrawOp> {
    let n = dims.len() as int;
    let idx = spec_current_index(elapsed_ms, photo_ms);
    let first = spec_first_visible(elapsed_ms, photo_ms);
    let head = if first < n {
        spec_slide_ops(
            style,
            first,
            spec_local_time(elapsed_ms, photo_ms, first),
            idx,
            n,
            sw,
            sh,
            dims[first],
        )
    } else {
        Seq::empty()
    };
    let tail = if first + 1 < n {
        spec_slide_ops(
            style,
            first + 1,
            spec_local_time(elapsed_ms, photo_ms, first + 1),
            idx,
            n,
            sw,
            sh,
            dims[first + 1],
        )
    } else {
        Seq::empty()
    };
    head + tail
}

/// Every operation a slide contributes names that slide.
pub proof fn lemma_slide_ops_tag(
    style: Transition,
    slide: int,
    t: int,
    current_index: int,
    n: int,
    sw: int,
    sh: int,
    dims: SlideDims,
)
    requires
        0 <= slide <= usize::MAX,
    ensures
        forall|k: int|
            0 <= k < spec_slide_ops(style, slide, t, current_index, n, sw, sh, dims).len()
                ==> #[trigger] spec_slide_ops(style, slide, t, current_index, n, sw, sh, dims)[k]
                .slide == slide,
{
    let ops = spec_slide_ops(style, slide, t, current_index, n, sw, sh, dims);
    if style.spec_alpha(t) >= ALPHA_SKIP {
        if spec_has_backdrop(style, t, current_index, n) {
            assert(ops.len() == 2);
            assert(ops[0].slide == slide as usize);
            assert(ops[1].slide == slide as usize);
        } else {
            assert(ops.len() == 1);
            assert(ops[0].slide == slide as usize);
        }
    }
}

pub fn cover_scale(screen_w: u32, screen_h: u32, dims: SlideDims) -> (s: u64)
    requires
        dims.spec_valid(),
        screen_w <= MAX_SCREEN_DIM,
        screen_h <= MAX_SCREEN_DIM,
    ensures
        s == spec_cover_scale(screen_w as int, screen_h as int, dims),
        s <= (MAX_SCREEN_DIM as u64) * VAL_ONE,
{
    proof {
        lemma_div_nonincreasing((screen_w as int) * (VAL_ONE as int), dims.width as int);
        lemma_div_nonincreasing((screen_h as int) * (VAL_ONE as int), dims.height as int);
        lemma_div_nonneg((screen_w as int) * (VAL_ONE as int), dims.width as int);
        lemma_div_nonneg((screen_h as int) * (VAL_ONE as int), dims.height as int);
    }
    let sx = screen_w as u64 * VAL_ONE / (dims.width as u64);
    let sy = screen_h as u64 * VAL_ONE / (dims.height as u64);
    if sx < sy {
        sy
    } else {
        sx
    }
}

fn centered_pos(screen: u32, image: u32, scale: u64) -> (p: i64)
    requires
        screen <= MAX_SCREEN_DIM,
        1 <= image <= MAX_IMAGE_DIM,
        scale <= MAX_EFF_SCALE,
    ensures
        p == spec_centered_pos(screen as int, image as int, scale as int),
{
    proof {
        assert((scale as int) * (image as int) <= (MAX_EFF_SCALE as int) * (MAX_IMAGE_DIM as int))
            by (nonlinear_arith)
            requires
                0 <= scale <= MAX_EFF_SCALE,
                0 <= image <= MAX_IMAGE_DIM,
        ;
        assert((scale as int) * (image as int) >= 0) by (nonlinear_arith)
            requires
                scale >= 0,
                image >= 0,
        ;
    }
    (screen as i64) * (VAL_ONE as i64) / 2 - (scale as i64) * (image as i64) / 2
}

/// Append everything slide `slide` contributes to this frame.
fn push_slide_ops(
    ops: &mut Vec<DrawOp>,
    style: Transition,
    slide: usize,
    t: u64,
    current_index: u64,
    n: usize,
    screen_w: u32,
    screen_h: u32,
    dims: SlideDims,
)
    requires
        dims.spec_valid(),
        screen_w <= MAX_SCREEN_DIM,
        screen_h <= MAX_SCREEN_DIM,
        t < 2 * TICKS_PER_SLIDE,
    ensures
        final(ops)@ == old(ops)@ + spec_slide_ops(
            style,
            slide as int,
            t as int,
            current_index as int,
            n as int,
            screen_w as int,
            screen_h as int,
            dims,
        ),
{
    let ghost spec_ops = spec_slide_ops(
        style,
        slide as int,
        t as int,
        current_index as int,
        n as int,
        screen_w as int,
        screen_h as int,
        dims,
    );
    let a = style.alpha(t);
    if a < ALPHA_SKIP {
        assert(ops@ =~= old(ops)@ + spec_ops);
        return ;
    }
    let s = style.size(t);
    let b = style.blur(t);
    let cover = cover_scale(screen_w, screen_h, dims);
    proof {
        crate::easing::lemma_size_bounded(style, t as int);
        assert((s as int) * (cover as int) <= 16_100_000 * 16_384_000_000int) by (nonlinear_arith)
            requires
                0 <= s <= ZOOM_TOP + (ZOOM_DRIFT as int) * 2 * TICKS_PER_SLIDE,
                0 <= cover <= (MAX_SCREEN_DIM as int) * (VAL_ONE as int),
        ;
        lemma_div_is_ordered(
            (s as int) * (cover as int),
            16_100_000 * 16_384_000_000int,
            VAL_ONE as int,
        );
        lemma_div_nonneg((s as int) * (cover as int), VAL_ONE as int);
    }
    let eff = s * cover / VAL_ONE;
    if s < VAL_ONE && current_index < n as u64 {
        let bd_raw = 2000 * t;
        let bd = if bd_raw < VAL_ONE {
            bd_raw
        } else {
            VAL_ONE
        };
        if bd > BACKDROP_MIN_ALPHA {
            ops.push(
                DrawOp {
                    slide,
                    blurred_texture: true,
                    x: centered_pos(screen_w, dims.width, cover),
                    y: centered_pos(screen_h, dims.height, cover),
                    scale: cover,
                    alpha: bd,
                    shader_blur: false,
                    blur_radius: 0,
                },
            );
        }
    }
    let main_alpha: u64 = if b < VAL_ONE {
        a
    } else {
        if style == Transition::Zoom && current_index >= n as u64 {
            if a >= ZOOM_SNAP_KEEP {
                a
            } else {
                0
            }
        } else {
            a
        }
    };
    ops.push(
        DrawOp {
            slide,
            blurred_texture: false,
            x: centered_pos(screen_w, dims.width, eff),
            y: centered_pos(screen_h, dims.height, eff),
            scale: eff,
            alpha: main_alpha,
            shader_blur: b >= VAL_ONE,
            blur_radius: if b < VAL_ONE {
                0
            } else {
                b
            },
        },
    );
    assert(ops@ =~= old(ops)@ + spec_ops);
}

/// Plan one frame: the draw operations for every slide still on screen, in
/// increasing index order, keyed off the count of slides that actually
/// loaded so no operation can name a missing slide.
pub fn plan_frame(
    style: Transition,
    elapsed_ms: u64,
    photo_ms: u64,
    screen_w: u32,
    screen_h: u32,
    dims: &Vec<SlideDims>,
) -> (ops: Vec<DrawOp>)
    requires
        1 <= photo_ms <= MAX_PHOTO_MS,
        elapsed_ms <= MAX_ELAPSED_MS,
        screen_w <= MAX_SCREEN_DIM,
        screen_h <= MAX_SCREEN_DIM,
        forall|i: int| 0 <= i < dims@.len() ==> #[trigger] dims@[i].spec_valid(),
    ensures
        ops@ == spec_frame_ops(
            style,
            elapsed_ms as int,
            photo_ms as int,
            screen_w as int,
            screen_h as int,
            dims@,
        ),
        forall|k: int|
            0 <= k < ops@.len() ==> (#[trigger] ops@[k].slide) < dims@.len(),
        forall|k: int|
            0 <= k < ops@.len() ==> (#[trigger] ops@[k].slide) == spec_first_visible(
                elapsed_ms as int,
                photo_ms as int,
            ) || ops@[k].slide == spec_first_visible(elapsed_ms as int, photo_ms as int) + 1,
{
    let ghost e = elapsed_ms as int;
    let ghost p = photo_ms as int;
    let idx = timeline::current_index(elapsed_ms, photo_ms);
    let first = timeline::first_visible(elapsed_ms, photo_ms);
    let n = dims.len();
    let mut ops: Vec<DrawOp> = Vec::new();
    proof {
        lemma_fundamental_div_mod(e, p);
        lemma_mod_division_less_than_divisor(e, p);
        assert((first as int) * p <= e && (first + 1) * p <= e + p) by (nonlinear_arith)
            requires
                e == p * (e / p) + e % p,
                0 <= e % p,
                0 < p,
                e / p >= 0,
                first == spec_first_visible(e, p),
                spec_first_visible(e, p) == if e / p > 0 {
                    e / p - 1
                } else {
                    0
                },
        ;
        lemma_local_time_of_visible_slide(e, p, first as int);
        lemma_local_time_of_visible_slide(e, p, first as int + 1);
    }
    if first < n as u64 {
        let t0 = timeline::local_time(elapsed_ms, photo_ms, first);
        push_slide_ops(&mut ops, style, first as usize, t0, idx, n, screen_w, screen_h,
            dims[first as usize]);
    }
    if first + 1 < n as u64 {
        let t1 = timeline::local_time(elapsed_ms, photo_ms, first + 1);
        push_slide_ops(&mut ops, style, (first + 1) as usize, t1, idx, n, screen_w, screen_h,
            dims[(first + 1) as usize]);
    }
    proof {
        let n_int = dims@.len() as int;
        let head = if (first as int) < n_int {
            spec_slide_ops(style, first as int, spec_local_time(e, p, first as int), idx as int,
                n_int, screen_w as int, screen_h as int, dims@[first as int])
        } else {
            Seq::<DrawOp>::empty()
        };
        let tail = if first as int + 1 < n_int {
            spec_slide_ops(style, first as int + 1, spec_local_time(e, p, first as int + 1),
                idx as int, n_int, screen_w as int, screen_h as int, dims@[first as int + 1])
        } else {
            Seq::<DrawOp>::empty()
        };
        if (first as int) < n_int {
            lemma_slide_ops_tag(style, first as int, spec_local_time(e, p, first as int),
                idx as int, n_int, screen_w as int, screen_h as int, dims@[first as int]);
        }
        if first as int + 1 < n_int {
            lemma_slide_ops_tag(style, first as int + 1,
                spec_local_time(e, p, first as int + 1), idx as int, n_int, screen_w as int,
                screen_h as int, dims@[first as int + 1]);
        }
        assert(ops@ =~= spec_frame_ops(style, e, p, screen_w as int, screen_h as int, dims@));
        assert(ops@ == head + tail);
        assert forall|k: int| 0 <= k < ops@.len() implies (#[trigger] ops@[k].slide) < dims@.len()
            && (ops@[k].slide == spec_first_visible(e, p) || ops@[k].slide == spec_first_visible(
            e,
            p,
        ) + 1) by {
            if k < head.len() {
                assert(ops@[k] == head[k]);
            } else {
                assert(ops@[k] == tail[k - head.len()]);
            }
        }
    }
    ops
}

} // verus!
