use albumino::config::{parse_bpm_milli, parse_transition, photo_time_ms, DEFAULT_BPM_MILLI};
use albumino::easing::Transition;

#[test]
fn unparsable_tempo_falls_back_to_the_default() {
    // The documented default is 12 bpm: five seconds per slide.
    assert_eq!(parse_bpm_milli(b"abc"), DEFAULT_BPM_MILLI);
    assert_eq!(parse_bpm_milli(b"abc"), 12_000);
    assert_eq!(photo_time_ms(parse_bpm_milli(b"abc")), 5000);
    assert_eq!(parse_bpm_milli(b""), DEFAULT_BPM_MILLI);
    assert_eq!(parse_bpm_milli(b"."), DEFAULT_BPM_MILLI);
    assert_eq!(parse_bpm_milli(b"12x"), DEFAULT_BPM_MILLI);
    assert_eq!(parse_bpm_milli(b"1.2.3"), DEFAULT_BPM_MILLI);
    assert_eq!(parse_bpm_milli(b"-5"), DEFAULT_BPM_MILLI);
    assert_eq!(parse_bpm_milli(b"1e3"), DEFAULT_BPM_MILLI);
    // A tempo below the engine's milli-bpm resolution is unusable too.
    assert_eq!(parse_bpm_milli(b"0"), DEFAULT_BPM_MILLI);
    assert_eq!(parse_bpm_milli(b"0.0001"), DEFAULT_BPM_MILLI);
}

#[test]
fn decimal_tempos_parse_to_milli_bpm() {
    assert_eq!(parse_bpm_milli(b"60"), 60_000);
    assert_eq!(parse_bpm_milli(b"12.5"), 12_500);
    assert_eq!(parse_bpm_milli(b"0.25"), 250);
    assert_eq!(parse_bpm_milli(b"5."), 5_000);
    assert_eq!(parse_bpm_milli(b".5"), 500);
    // Digits beyond the third fractional place are below resolution.
    assert_eq!(parse_bpm_milli(b"1.23456"), 1_234);
}

#[test]
fn photo_time_is_sixty_seconds_over_the_tempo() {
    assert_eq!(photo_time_ms(60_000), 1000);
    assert_eq!(photo_time_ms(12_000), 5000);
    assert_eq!(photo_time_ms(120_000), 500);
    // Sub-millisecond periods are rounded up to one millisecond.
    assert_eq!(photo_time_ms(1_000_000_000_000), 1);
}

#[test]
fn absurdly_long_tempos_saturate_instead_of_overflowing() {
    let bpm = parse_bpm_milli(b"99999999999999999999999999");
    assert_eq!(bpm, 1_000_000_000_000);
    assert_eq!(photo_time_ms(bpm), 1);
}

#[test]
fn style_tokens_match_exactly_or_mean_cut() {
    assert_eq!(parse_transition(b"zoom"), Transition::Zoom);
    assert_eq!(parse_transition(b"fade"), Transition::Fade);
    assert_eq!(parse_transition(b"cut"), Transition::Cut);
    // Case-sensitive exact match: anything else falls back to the cut.
    assert_eq!(parse_transition(b"Zoom"), Transition::Cut);
    assert_eq!(parse_transition(b"ZOOM"), Transition::Cut);
    assert_eq!(parse_transition(b"zoomy"), Transition::Cut);
    assert_eq!(parse_transition(b"fad"), Transition::Cut);
    assert_eq!(parse_transition(b""), Transition::Cut);
}
