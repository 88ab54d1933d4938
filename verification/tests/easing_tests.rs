use albumino::easing::{
    alpha_cut, alpha_fade, alpha_zoom, blur_cut, blur_fade, blur_zoom, size_cut, size_fade,
    size_zoom, Transition,
};
use albumino::units::VAL_ONE;

const STYLES: [Transition; 3] = [Transition::Zoom, Transition::Fade, Transition::Cut];

#[test]
fn alpha_stays_within_unit_for_all_styles() {
    // Sampled over three slide durations, tick by tick.
    for style in STYLES {
        for t in 0..=3000u64 {
            let a = style.alpha(t);
            assert!(a <= VAL_ONE, "style {:?} at t={} gave alpha {}", style, t, a);
        }
    }
}

#[test]
fn cut_alpha_is_exactly_one_inside_and_zero_outside() {
    assert_eq!(alpha_cut(0), 0);
    assert_eq!(alpha_cut(1), VAL_ONE);
    assert_eq!(alpha_cut(999), VAL_ONE);
    assert_eq!(alpha_cut(1000), VAL_ONE);
    assert_eq!(alpha_cut(1001), 0);
    assert_eq!(alpha_cut(2000), 0);
    assert_eq!(size_cut(0), 0);
    assert_eq!(size_cut(500), VAL_ONE);
    assert_eq!(size_cut(1001), 0);
    assert_eq!(blur_cut(500), 0);
}

#[test]
fn fade_alpha_is_unimodal_with_peak_inside_the_slide() {
    // Strictly increasing tick by tick up to the peak at 700...
    for t in 0..700u64 {
        assert!(alpha_fade(t) < alpha_fade(t + 1), "not rising at t={}", t);
    }
    // ...strictly decreasing tick by tick down to extinction at 1400...
    for t in 700..1400u64 {
        assert!(alpha_fade(t) > alpha_fade(t + 1), "not falling at t={}", t);
    }
    // ...and the peak is full opacity, strictly inside (0, 1000).
    assert_eq!(alpha_fade(700), VAL_ONE);
    assert_eq!(alpha_fade(0), 0);
    assert_eq!(alpha_fade(1400), 0);
}

#[test]
fn fade_alpha_is_symmetric_about_its_peak() {
    // The mirrored halves of the crossfade agree to within one millionth.
    for u in 0..=700u64 {
        let before = alpha_fade(700 - u);
        let after = alpha_fade(700 + u);
        assert!(before <= after && after <= before + 1, "asymmetric at u={}", u);
    }
}

#[test]
fn fade_alpha_exact_values() {
    // Halfway up the s-curve is exactly half opacity.
    assert_eq!(alpha_fade(350), 500_000);
    assert_eq!(alpha_fade(1050), 500_000);
}

#[test]
fn fade_size_is_one_plus_a_decaying_bump() {
    assert_eq!(size_fade(0), VAL_ONE + 10_000);
    assert!(size_fade(100) < size_fade(0));
    assert!(size_fade(100) > VAL_ONE);
    assert_eq!(size_fade(1500), VAL_ONE);
    assert_eq!(size_fade(5000), VAL_ONE);
    assert_eq!(blur_fade(500), 0);
}

#[test]
fn zoom_size_is_continuous_at_the_regime_change() {
    // Consecutive ticks around the half-slide hand-over differ only by the
    // constant drift: no visible pop.
    let eps = 50;
    assert_eq!(size_zoom(500) - size_zoom(499), eps);
    assert_eq!(size_zoom(501) - size_zoom(500), eps);
    for t in 200..900u64 {
        assert_eq!(size_zoom(t + 1) - size_zoom(t), eps);
    }
}

#[test]
fn zoom_size_exact_values() {
    assert_eq!(size_zoom(0), 0);
    assert_eq!(size_zoom(100), 781_250);
    assert_eq!(size_zoom(200), 1_045_000);
    assert_eq!(size_zoom(1000), 8_567_500);
    assert_eq!(size_zoom(1100), 16_055_000);
}

#[test]
fn zoom_alpha_saturates_then_decays_to_a_floor() {
    assert_eq!(alpha_zoom(0), 0);
    assert_eq!(alpha_zoom(50), 750_000);
    assert_eq!(alpha_zoom(100), VAL_ONE);
    assert_eq!(alpha_zoom(1000), VAL_ONE);
    assert_eq!(alpha_zoom(1500), 505_000);
    assert_eq!(alpha_zoom(2000), 10_000);
    assert_eq!(alpha_zoom(3000), 10_000);
}

#[test]
fn zoom_blur_grows_exponentially_past_one_slide_and_is_capped() {
    assert_eq!(blur_zoom(0), 0);
    assert_eq!(blur_zoom(1000), 0);
    // One tick past the slide: radius just above one, doubling every 28.
    assert_eq!(blur_zoom(1001), VAL_ONE + VAL_ONE / 28);
    assert_eq!(blur_zoom(1028), 2 * VAL_ONE);
    assert_eq!(blur_zoom(1056), 4 * VAL_ONE);
    // Far into the exit the radius is capped at 250.
    assert_eq!(blur_zoom(1300), 250_000_000);
    assert_eq!(blur_zoom(9999), 250_000_000);
}

#[test]
fn style_methods_dispatch_to_the_style_curves() {
    assert_eq!(Transition::Cut.alpha(500), alpha_cut(500));
    assert_eq!(Transition::Fade.alpha(350), alpha_fade(350));
    assert_eq!(Transition::Zoom.alpha(50), alpha_zoom(50));
    assert_eq!(Transition::Zoom.size(100), size_zoom(100));
    assert_eq!(Transition::Zoom.blur(1028), blur_zoom(1028));
    assert_eq!(Transition::Fade.blur(123), 0);
    assert_eq!(Transition::default(), Transition::Cut);
}
