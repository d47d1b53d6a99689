use naqsh::color::{Color, ColorInt};
use naqsh::color_utils::{ColorUtils, Hsl};
use naqsh::ratio::Ratio;

#[test]
fn test_argb_roundtrip() {
    // Packing then unpacking returns every component, over the whole range.
    for v in 0u16..=255 {
        let v = v as u8;
        let c = Color::argb(v, 255 - v, v ^ 0x5a, v.wrapping_mul(3));
        assert_eq!(Color::alpha(c), v);
        assert_eq!(Color::red(c), 255 - v);
        assert_eq!(Color::green(c), v ^ 0x5a);
        assert_eq!(Color::blue(c), v.wrapping_mul(3));
    }
    let c = Color::argb(0x12, 0x34, 0x56, 0x78);
    assert_eq!(c.0, 0x12345678);
    assert_eq!(ColorInt(0x12345678).alpha(), 0x12);
    assert_eq!(ColorInt(0x12345678).red(), 0x34);
    assert_eq!(ColorInt(0x12345678).green(), 0x56);
    assert_eq!(ColorInt(0x12345678).blue(), 0x78);
}

#[test]
fn test_rgb_gets_opaque_alpha() {
    let c = Color::rgb(10, 20, 30);
    assert_eq!(Color::alpha(c), 255);
    assert_eq!(c.0, 0xFF0A141Eu32 as i32);
}

#[test]
fn test_monochromatic_hsl() {
    // A gray input yields hue 0, saturation 0, lightness x/255, for every x.
    for x in 0u16..=255 {
        let x = x as u8;
        let hsl = ColorUtils::rgb_to_hsl(x, x, x);
        assert_eq!(hsl.hue.num, 0);
        assert_eq!(hsl.saturation.num, 0);
        assert!(hsl.lightness.eq_value(&Ratio { num: x as u32, den: 255 }));
    }
}

#[test]
fn test_primary_hues() {
    let red = ColorUtils::rgb_to_hsl(255, 0, 0);
    assert!(red.hue.eq_value(&Ratio { num: 0, den: 1 }));
    assert!(red.saturation.eq_value(&Ratio { num: 1, den: 1 }));
    assert!(red.lightness.eq_value(&Ratio { num: 1, den: 2 }));

    let green = ColorUtils::rgb_to_hsl(0, 255, 0);
    assert!(green.hue.eq_value(&Ratio { num: 120, den: 1 }));

    let blue = ColorUtils::rgb_to_hsl(0, 0, 255);
    assert!(blue.hue.eq_value(&Ratio { num: 240, den: 1 }));

    // A negative-offset hue wraps into [0, 360): magenta sits at 300 degrees.
    let magenta = ColorUtils::rgb_to_hsl(255, 0, 255);
    assert!(magenta.hue.eq_value(&Ratio { num: 300, den: 1 }));
}

#[test]
fn test_set_alpha_component() {
    let c = Color::argb(0x00, 0xAA, 0xBB, 0xCC);
    let c2 = ColorUtils::set_alpha_component(c, 0x7F);
    assert_eq!(c2.0, 0x7FAABBCCu32 as i32);
    assert_eq!(Color::red(c2), 0xAA);
}

#[test]
fn test_composite_colors_half_red_over_white() {
    // Half-transparent red over opaque white: alpha saturates to 255, the red
    // channel stays 255, green and blue blend to 127.
    let fg = ColorInt(0x80FF0000u32 as i32);
    let bg = Color::rgb(255, 255, 255);
    let out = ColorUtils::composite_colors(fg, bg);
    assert_eq!(out, 0xFFFF7F7Fu32 as i32);
}

#[test]
fn test_composite_fully_transparent_over_transparent() {
    // Combined alpha 0 forces every channel to 0.
    let fg = ColorInt(0x00123456);
    let bg = ColorInt(0x00654321);
    let out = ColorUtils::composite_colors(fg, bg);
    assert_eq!(out, 0);
}

#[test]
fn test_luminance_extremes() {
    // Pure white has luminance exactly 1, pure black exactly 0, on the
    // fixed-point scale of 10^12.
    assert_eq!(ColorUtils::calculate_luminance(Color::white()), 1_000_000_000_000);
    assert_eq!(ColorUtils::calculate_luminance(Color::black()), 0);
}

#[test]
fn test_contrast_white_on_black_is_21() {
    // The maximum WCAG ratio: (1 + 0.05) / (0 + 0.05) = 21, in thousandths.
    let ratio = ColorUtils::calculate_contrast(Color::white(), Color::black());
    assert_eq!(ratio, 21_000);
}

#[test]
fn test_contrast_of_equal_colors_is_1() {
    let gray = Color::rgb(128, 128, 128);
    assert_eq!(ColorUtils::calculate_contrast(gray, gray), 1_000);
}

#[test]
fn test_minimum_alpha_unachievable_ratio() {
    // A ratio above the maximum achievable 21 yields the sentinel -1.
    let r = ColorUtils::calculate_minimum_alpha(Color::white(), Color::black(), 21_100);
    assert_eq!(r, -1);
}

#[test]
fn test_minimum_alpha_monotonic_in_ratio() {
    // For fixed colors the minimum alpha never decreases as the required
    // ratio grows, wherever it is achievable at all.
    let fg = Color::white();
    let bg = Color::black();
    let mut prev = ColorUtils::calculate_minimum_alpha(fg, bg, 1_000);
    assert!(prev != -1);
    for ratio in [2_000u32, 3_000, 4_500, 7_000, 10_000, 15_000, 21_000] {
        let cur = ColorUtils::calculate_minimum_alpha(fg, bg, ratio);
        assert!(cur != -1);
        assert!(cur >= prev);
        prev = cur;
    }
}

#[test]
fn test_minimum_alpha_result_passes() {
    let fg = Color::white();
    let bg = Color::rgb(40, 40, 40);
    let a = ColorUtils::calculate_minimum_alpha(fg, bg, 4_500);
    assert!(a >= 0 && a <= 255);
    let faded = ColorUtils::set_alpha_component(fg, a as u8);
    assert!(ColorUtils::calculate_contrast(faded, bg) >= 4_500);
}

#[test]
fn test_parse_color_six_digits() {
    let c = Color::parse_color(String::from("#ff0000")).unwrap();
    assert_eq!(c.0, 0xFFFF0000u32 as i32);
    let c = Color::parse_color(String::from("#00FF00")).unwrap();
    assert_eq!(c.0, 0xFF00FF00u32 as i32);
}

#[test]
fn test_parse_color_eight_digits() {
    let c = Color::parse_color(String::from("#80ff0000")).unwrap();
    assert_eq!(c.0, 0x80FF0000u32 as i32);
}

#[test]
fn test_parse_color_rejects_malformed() {
    assert!(Color::parse_color(String::from("")).is_none());
    assert!(Color::parse_color(String::from("ff0000")).is_none());
    assert!(Color::parse_color(String::from("#ff00")).is_none());
    assert!(Color::parse_color(String::from("#ff00zz")).is_none());
    assert!(Color::parse_color(String::from("#ff0000f")).is_none());
}

#[test]
fn test_hsl_is_well_formed() {
    // Spot checks: hue below 360 degrees, saturation and lightness in [0,1].
    for (r, g, b) in [(1u8, 2u8, 3u8), (200, 10, 150), (254, 255, 0), (17, 17, 18)] {
        let hsl: Hsl = ColorUtils::rgb_to_hsl(r, g, b);
        assert!(hsl.hue.lt(&Ratio { num: 360, den: 1 }));
        assert!(hsl.saturation.le(&Ratio { num: 1, den: 1 }));
        assert!(hsl.lightness.le(&Ratio { num: 1, den: 1 }));
    }
}
