use albumino::timeline::{beat_frac, current_index, first_visible, local_time};

#[test]
fn index_starts_at_zero_and_never_goes_back() {
    assert_eq!(current_index(0, 1000), 0);
    let mut last = 0u64;
    for e in (0..10_000u64).step_by(37) {
        let i = current_index(e, 1000);
        assert!(i >= last);
        last = i;
    }
}

#[test]
fn index_advances_exactly_once_per_photo_time() {
    for e in (0..5000u64).step_by(119) {
        assert_eq!(current_index(e + 1000, 1000), current_index(e, 1000) + 1);
    }
    // One increment per second at 60 bpm.
    assert_eq!(current_index(500, 1000), 0);
    assert_eq!(current_index(1500, 1000), 1);
    assert_eq!(current_index(2500, 1000), 2);
}

#[test]
fn local_time_grows_past_the_next_slide() {
    // A slide's local time keeps growing after the next slide starts: that
    // drives its exit easing.
    assert_eq!(local_time(500, 1000, 0), 500);
    assert_eq!(local_time(1500, 1000, 0), 1500);
    assert_eq!(local_time(1500, 1000, 1), 500);
    // And is pinned at zero before the slide becomes current.
    assert_eq!(local_time(500, 1000, 1), 0);
    assert_eq!(local_time(0, 1000, 3), 0);
}

#[test]
fn beat_frac_wraps_every_slide() {
    assert_eq!(beat_frac(0, 1000), 0);
    assert_eq!(beat_frac(300, 1000), 300);
    assert_eq!(beat_frac(1300, 1000), 300);
    assert_eq!(beat_frac(999, 1000), 999);
    assert_eq!(beat_frac(1000, 1000), 0);
    // Non-trivial photo time: 5 s per slide at the default tempo.
    assert_eq!(beat_frac(2500, 5000), 500);
}

#[test]
fn the_window_starts_one_slide_back() {
    assert_eq!(first_visible(0, 1000), 0);
    assert_eq!(first_visible(999, 1000), 0);
    assert_eq!(first_visible(1500, 1000), 0);
    assert_eq!(first_visible(2500, 1000), 1);
    assert_eq!(first_visible(9999, 1000), 8);
}
