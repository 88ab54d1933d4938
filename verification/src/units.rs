//! Fixed-point units and machine limits shared by the whole engine.
//!
//! Scalars that the rendering pipeline consumes as real numbers
//! (sizes, opacities, blur radii, volumes) are carried in millionths of one,
//! so the opacity threshold below which a slide is skipped — one millionth —
//! is exactly one unit.  Slide-local time is carried in ticks of 1/1000 of a
//! slide duration, fine enough that even a five-second slide advances several
//! ticks per frame.

use vstd::prelude::*;

verus! {

/// The scalar 1.0 in millionths: full opacity, full volume, cover-fit size.
pub const VAL_ONE: u64 = 1_000_000;

/// One slide duration (one `photo_time`) in local-time ticks.
pub const TICKS_PER_SLIDE: u64 = 1000;

/// Opacities strictly below this many millionths are treated as fully
/// transparent and the draw is skipped.
pub const ALPHA_SKIP: u64 = 1;

/// The blurred backdrop is skipped while its opacity is at or below this.
pub const BACKDROP_MIN_ALPHA: u64 = 100;

/// Largest slide-local time the easing curves accept, in ticks: a thousand
/// slide durations, far beyond the two during which a slide is on screen.
pub const MAX_TICKS: u64 = 1_000_000;

/// Largest wall-clock time since the show started that the engine accepts,
/// in milliseconds (about thirty-one years).
pub const MAX_ELAPSED_MS: u64 = 1_000_000_000_000;

/// Largest seconds-per-slide period accepted, in milliseconds (about one day).
pub const MAX_PHOTO_MS: u64 = 100_000_000;

/// Largest render-surface width or height accepted, in pixels.
pub const MAX_SCREEN_DIM: u32 = 16384;

/// Largest decoded image width or height accepted, in pixels.
pub const MAX_IMAGE_DIM: u32 = 65536;

} // verus!
