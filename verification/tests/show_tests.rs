use albumino::compositor::SlideDims;
use albumino::easing::Transition;
use albumino::manifest::preload_keep;
use albumino::playback::{preroll_ms, PlaybackState};
use albumino::show::frame_step;
use albumino::units::VAL_ONE;

fn square_slides(n: usize) -> Vec<SlideDims> {
    let mut dims = Vec::new();
    for _ in 0..n {
        dims.push(SlideDims { width: 100, height: 100 });
    }
    dims
}

#[test]
fn cut_show_with_three_slides() {
    // Three slides at 60 bpm: one second each, hard cut.
    let dims = square_slides(3);
    let photo = 1000u64;

    // Half a second in: only slide 0, fully opaque, covering the screen.
    let out = frame_step(Transition::Cut, photo, &dims, PlaybackState::Running, false, 500,
        1000, 1000);
    assert_eq!(out.state, PlaybackState::Running);
    assert_eq!(out.ops.len(), 1);
    assert_eq!(out.ops[0].slide, 0);
    assert_eq!(out.ops[0].alpha, VAL_ONE);
    assert!(!out.ops[0].blurred_texture);
    assert!(!out.ops[0].shader_blur);
    // Cover fit of a 100x100 image on a 1000x1000 screen: ten times.
    assert_eq!(out.ops[0].scale, 10 * VAL_ONE);
    assert_eq!(out.ops[0].x, 0);
    assert_eq!(out.ops[0].y, 0);
    assert!(!out.stop_playback);
    assert!(out.pump_audio);
    assert_eq!(out.volume, 500_000);

    // A second and a half in: only slide 1.
    let out = frame_step(Transition::Cut, photo, &dims, PlaybackState::Running, false, 1500,
        1000, 1000);
    assert_eq!(out.state, PlaybackState::Running);
    assert_eq!(out.ops.len(), 1);
    assert_eq!(out.ops[0].slide, 1);
    assert_eq!(out.ops[0].alpha, VAL_ONE);
    assert_eq!(out.volume, VAL_ONE);

    // 3.1 s in: the index sits on the first beat past the last slide, the
    // exit window: nothing is drawn but the show has not yet ended.
    let out = frame_step(Transition::Cut, photo, &dims, PlaybackState::Running, false, 3100,
        1000, 1000);
    assert_eq!(out.state, PlaybackState::Running);
    assert_eq!(out.ops.len(), 0);
    assert_eq!(out.volume, 0);

    // One more beat and the show is over: audio stopped, state Finished.
    let out = frame_step(Transition::Cut, photo, &dims, PlaybackState::Running, false, 4100,
        1000, 1000);
    assert_eq!(out.state, PlaybackState::Finished);
    assert!(out.stop_playback);
    assert_eq!(out.ops.len(), 0);
    assert_eq!(out.volume, 0);
}

#[test]
fn a_failed_decode_shrinks_the_show_without_any_out_of_bounds_slide() {
    // One invalid path and two valid ones: the show runs on two slides and
    // no draw operation ever names a slide past the surviving list.
    let d = SlideDims { width: 640, height: 480 };
    let loaded = vec![None, Some(d), Some(d)];
    let dims = preload_keep(&loaded);
    assert_eq!(dims.len(), 2);

    for style in [Transition::Zoom, Transition::Fade, Transition::Cut] {
        for step in 0..200u64 {
            let out = frame_step(style, 1000, &dims, PlaybackState::Running, false, step * 25,
                1920, 1080);
            for op in out.ops.iter() {
                assert!(op.slide < dims.len());
            }
        }
    }
}

#[test]
fn the_start_gate_and_replay() {
    let dims = square_slides(2);

    // Idle stays idle without the start signal; nothing drawn, no audio.
    let out = frame_step(Transition::Zoom, 1000, &dims, PlaybackState::Idle, false, 0, 800, 600);
    assert_eq!(out.state, PlaybackState::Idle);
    assert!(out.ops.is_empty());
    assert!(!out.begin_playback);
    assert!(!out.pump_audio);

    // The start signal begins playback and restarts the soundtrack.
    let out = frame_step(Transition::Zoom, 1000, &dims, PlaybackState::Idle, true, 0, 800, 600);
    assert_eq!(out.state, PlaybackState::Running);
    assert!(out.begin_playback);
    assert!(!out.pump_audio);
    assert!(out.ops.is_empty());

    // Finished behaves like Idle: the start signal replays the show.
    let out = frame_step(Transition::Zoom, 1000, &dims, PlaybackState::Finished, true, 0, 800,
        600);
    assert_eq!(out.state, PlaybackState::Running);
    assert!(out.begin_playback);

    let out = frame_step(Transition::Zoom, 1000, &dims, PlaybackState::Finished, false, 0, 800,
        600);
    assert_eq!(out.state, PlaybackState::Finished);
}

#[test]
fn playback_begins_with_a_twentieth_of_a_slide_of_preroll() {
    // Five-second slides, a 16 ms frame: the anchor backs up 266 ms so the
    // first entry transition is not clipped.
    assert_eq!(preroll_ms(5000, 16), 266);
    assert_eq!(preroll_ms(1000, 0), 50);
}

#[test]
fn zoom_entry_draws_the_blurred_backdrop_behind_the_small_sharp_image() {
    let dims = square_slides(1);

    // Early in the zoom entry the sharp image is still smaller than cover
    // fit, so the pre-blurred texture is drawn first at plain cover fit.
    let out = frame_step(Transition::Zoom, 1000, &dims, PlaybackState::Running, false, 50, 1000,
        1000);
    assert_eq!(out.ops.len(), 2);
    assert!(out.ops[0].blurred_texture);
    assert_eq!(out.ops[0].slide, 0);
    assert_eq!(out.ops[0].scale, 10 * VAL_ONE);
    // Backdrop opacity is twice the local time.
    assert_eq!(out.ops[0].alpha, 100_000);
    assert!(!out.ops[1].blurred_texture);
    assert_eq!(out.ops[1].slide, 0);

    // Once the zoom has settled past cover fit the backdrop is gone.
    let out = frame_step(Transition::Zoom, 1000, &dims, PlaybackState::Running, false, 500, 1000,
        1000);
    assert_eq!(out.ops.len(), 1);
    assert!(!out.ops[0].blurred_texture);
}

#[test]
fn a_zoom_exit_goes_through_the_blur_shader() {
    let dims = square_slides(2);

    // 1.5 slides in: slide 0 is exiting (blurred, shader) while slide 1 is
    // on screen in focus.
    let out = frame_step(Transition::Zoom, 1000, &dims, PlaybackState::Running, false, 1500,
        1000, 1000);
    assert_eq!(out.ops.len(), 2);
    assert_eq!(out.ops[0].slide, 0);
    assert!(out.ops[0].shader_blur);
    assert!(out.ops[0].blur_radius >= VAL_ONE);
    assert_eq!(out.ops[0].alpha, 505_000);
    assert_eq!(out.ops[1].slide, 1);
    assert!(!out.ops[1].shader_blur);
    assert_eq!(out.ops[1].alpha, VAL_ONE);
}

#[test]
fn after_the_last_slide_a_zoom_exit_snaps_to_transparent() {
    // With one slide the index is past the slides from one second on: the
    // lingering zoom fade, still at half opacity mid-exit, snaps to zero.
    let dims = square_slides(1);
    let out = frame_step(Transition::Zoom, 1000, &dims, PlaybackState::Running, false, 1500,
        1000, 1000);
    assert_eq!(out.state, PlaybackState::Running);
    assert_eq!(out.ops.len(), 1);
    assert_eq!(out.ops[0].slide, 0);
    assert!(out.ops[0].shader_blur);
    assert_eq!(out.ops[0].alpha, 0);

    // Right at the start of the exit the opacity is still essentially full
    // and survives the snap.
    let out = frame_step(Transition::Zoom, 1000, &dims, PlaybackState::Running, false, 1001,
        1000, 1000);
    assert_eq!(out.ops.len(), 1);
    assert_eq!(out.ops[0].alpha, 999_997);
}
