use albumino::audio::volume;
use albumino::units::VAL_ONE;

#[test]
fn four_slide_volume_scenario() {
    // First slide, three tenths in: volume 0.3.
    assert_eq!(volume(0, 4, 300), 300_000);
    // Last slide, seven tenths in: volume 0.3.
    assert_eq!(volume(3, 4, 700), 300_000);
    // Interior slide: full volume whatever the phase.
    assert_eq!(volume(1, 4, 0), VAL_ONE);
    assert_eq!(volume(1, 4, 123), VAL_ONE);
    assert_eq!(volume(1, 4, 999), VAL_ONE);
    assert_eq!(volume(2, 4, 500), VAL_ONE);
}

#[test]
fn volume_is_silent_once_the_show_is_past_its_slides() {
    assert_eq!(volume(4, 4, 0), 0);
    assert_eq!(volume(4, 4, 500), 0);
    assert_eq!(volume(7, 4, 999), 0);
    assert_eq!(volume(0, 0, 500), 0);
}

#[test]
fn volume_ramps_monotonically_at_the_edges() {
    for f in 0..999u64 {
        assert!(volume(0, 4, f) < volume(0, 4, f + 1));
        assert!(volume(3, 4, f) > volume(3, 4, f + 1));
    }
}

#[test]
fn volume_is_continuous_across_interior_boundaries() {
    // End of the fade-in is one tick short of full volume, and the interior
    // picks up at exactly full volume.
    assert_eq!(volume(0, 4, 999), VAL_ONE - 1000);
    assert_eq!(volume(1, 4, 0), VAL_ONE);
    // The fade-out starts from exactly full volume.
    assert_eq!(volume(2, 4, 999), VAL_ONE);
    assert_eq!(volume(3, 4, 0), VAL_ONE);
}

#[test]
fn a_single_slide_show_ramps_up() {
    // With one slide, the first-slide ramp wins.
    assert_eq!(volume(0, 1, 250), 250_000);
}
