//! One frame of the whole engine.
//!
//! The front end calls [`frame_step`] once per rendered frame with the
//! playback state it holds, the start signal and the wall-clock time since
//! the timeline anchor; it gets back the next state, the frame's draw
//! operations and what to do with the soundtrack.  Outside `Running` no
//! slide is drawn and the audio stream is left alone; the begin flag tells
//! the front end to re-anchor the timeline (with [`crate::playback::preroll_ms`]
//! of head start) and to restart the soundtrack from the beginning.

use vstd::prelude::*;

use crate::audio::{spec_volume, volume};
use crate::compositor::{plan_frame, spec_frame_ops, DrawOp, SlideDims};
use crate::easing::Transition;
use crate::playback::{spec_gate_step, spec_running_step, spec_show_ended, PlaybackState};
use crate::timeline::{beat_frac, current_index, spec_beat_frac, spec_current_index};
use crate::units::{MAX_ELAPSED_MS, MAX_PHOTO_MS, MAX_SCREEN_DIM};

verus! {

/// Everything one frame asks of the front end.
pub struct FrameOutput {
    /// Playback state to carry into the next frame.
    pub state: PlaybackState,
    /// Draw operations for this frame, in order.
    pub ops: Vec<DrawOp>,
    /// Re-anchor the timeline and restart the soundtrack from the beginning.
    pub begin_playback: bool,
    /// Stop the soundtrack: the show has just ended.
    pub stop_playback: bool,
    /// Keep the streaming soundtrack fed and apply `volume` this frame.
    pub pump_audio: bool,
    /// Soundtrack volume in millionths; meaningful while `pump_audio` holds.
    pub volume: u64,
}

/// Advance the engine by one frame.
pub fn frame_step(
    style: Transition,
    photo_ms: u64,
    dims: &Vec<SlideDims>,
    state: PlaybackState,
    start_pressed: bool,
    elapsed_ms: u64,
    screen_w: u32,
    screen_h: u32,
) -> (out: FrameOutput)
    requires
        1 <= photo_ms <= MAX_PHOTO_MS,
        elapsed_ms <= MAX_ELAPSED_MS,
        screen_w <= MAX_SCREEN_DIM,
        screen_h <= MAX_SCREEN_DIM,
        forall|i: int| 0 <= i < dims@.len() ==> #[trigger] dims@[i].spec_valid(),
    ensures
        state != PlaybackState::Running ==> {
            &&& out.state == spec_gate_step(state, start_pressed)
            &&& out.ops@ == Seq::<DrawOp>::empty()
            &&& out.begin_playback == start_pressed
            &&& !out.stop_playback
            &&& !out.pump_audio
            &&& out.volume == 0
        },
        state == PlaybackState::Running ==> {
            let idx = spec_current_index(elapsed_ms as int, photo_ms as int);
            let n = dims@.len() as int;
            &&& out.state == spec_running_step(idx, n)
            &&& out.ops@ == spec_frame_ops(
                style,
                elapsed_ms as int,
                photo_ms as int,
                screen_w as int,
                screen_h as int,
                dims@,
            )
            &&& !out.begin_playback
            &&& out.stop_playback == spec_show_ended(idx, n)
            &&& out.pump_audio
            &&& out.volume == spec_volume(
                idx,
                n,
                spec_beat_frac(elapsed_ms as int, photo_ms as int),
            )
        },
{
    match state {
        PlaybackState::Running => {
            let idx = current_index(elapsed_ms, photo_ms);
            let n = dims.len();
            let ended = idx > n as u64;
            let frac = beat_frac(elapsed_ms, photo_ms);
            let vol = volume(idx, n as u64, frac);
            let ops = plan_frame(style, elapsed_ms, photo_ms, screen_w, screen_h, dims);
            FrameOutput {
                state: if ended {
                    PlaybackState::Finished
                } else {
                    PlaybackState::Running
                },
                ops,
                begin_playback: false,
                stop_playback: ended,
                pump_audio: true,
                volume: vol,
            }
        },
        _ => FrameOutput {
            state: if start_pressed {
                PlaybackState::Running
            } else {
                state
            },
            ops: Vec::new(),
            begin_playback: start_pressed,
            stop_playback: false,
            pump_audio: false,
            volume: 0,
        },
    }
}

} // verus!
