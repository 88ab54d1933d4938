//! The playback state machine: waiting for the start signal, running the
//! timeline, and resting again once the show has finished.
//!
//! `Idle` waits for the user's start signal.  `Running` advances the
//! timeline from a re-anchored start instant until the index is one past the
//! last slide, leaving the last slide's exit animation time to complete.
//! `Finished` behaves like `Idle` — the start signal replays the show — but
//! the front end additionally shows a quit hint.

use vstd::prelude::*;

use crate::units::MAX_PHOTO_MS;

verus! {

#[derive(Clone, Copy, PartialEq, Eq, Structural, Debug)]
pub enum PlaybackState {
    /// Waiting for the start signal; the timeline is ignored.
    Idle,
    /// The timeline is advancing and slides are drawn.
    Running,
    /// At least one full playback has completed; waiting like `Idle`.
    Finished,
}

/// The show is over once the index is one past the last slide: the last
/// slide's exit animation has then had a full slide duration to complete.
pub open spec fn spec_show_ended(index: int, n: int) -> bool {
    index > n
}

/// State after one frame outside `Running`: the start signal moves to
/// `Running`, anything else stays put.
pub open spec fn spec_gate_step(state: PlaybackState, start_pressed: bool) -> PlaybackState
    recommends
        state != PlaybackState::Running,
{
    if start_pressed {
        PlaybackState::Running
    } else {
        state
    }
}

/// State after one `Running` frame: `Finished` once the show has ended.
pub open spec fn spec_running_step(index: int, n: int) -> PlaybackState {
    if spec_show_ended(index, n) {
        PlaybackState::Finished
    } else {
        PlaybackState::Running
    }
}

/// How far before the nominal start the timeline is anchored when playback
/// begins, in milliseconds: a twentieth of a slide plus one frame, so the
/// first slide's entry transition is not clipped.
pub open spec fn spec_preroll_ms(photo_ms: int, frame_ms: int) -> int {
    photo_ms / 20 + frame_ms
}

pub fn preroll_ms(photo_ms: u64, frame_ms: u64) -> (p: u64)
    requires
        photo_ms <= MAX_PHOTO_MS,
        frame_ms <= MAX_PHOTO_MS,
    ensures
        p == spec_preroll_ms(photo_ms as int, frame_ms as int),
{
    photo_ms / 20 + frame_ms
}

} // verus!
