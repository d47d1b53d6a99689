use naqsh::color_cut_quantizer::ColorCutQuantizer;
use naqsh::color_utils::ColorUtils;
use naqsh::filter::{DefaultFilter, Filter};

fn default_filters() -> Vec<DefaultFilter> {
    vec![DefaultFilter]
}

#[test]
fn test_quantized_components() {
    // 0b11111_01010_00001: red 31, green 10, blue 1.
    let c: u32 = (31 << 10) | (10 << 5) | 1;
    assert_eq!(ColorCutQuantizer::quantized_red(c), 31);
    assert_eq!(ColorCutQuantizer::quantized_green(c), 10);
    assert_eq!(ColorCutQuantizer::quantized_blue(c), 1);
}

#[test]
fn test_modify_word_width_widens_by_replication() {
    // 5 bits to 8: shift up 3 and refill from the top bits, so full scale
    // stays full scale.
    assert_eq!(ColorCutQuantizer::modify_word_width(31, 5, 8), 255);
    assert_eq!(ColorCutQuantizer::modify_word_width(0, 5, 8), 0);
    assert_eq!(ColorCutQuantizer::modify_word_width(16, 5, 8), 132);
}

#[test]
fn test_modify_word_width_narrows_to_top_bits() {
    assert_eq!(ColorCutQuantizer::modify_word_width(255, 8, 5), 31);
    assert_eq!(ColorCutQuantizer::modify_word_width(0x88, 8, 5), 0x11);
}

#[test]
fn test_approximate_to_rgb888_full_scale() {
    let c = ColorCutQuantizer::approximate_to_rgb888((31 << 10) | (31 << 5) | 31);
    assert_eq!(c.0, 0xFFFFFFFFu32 as i32);
    let c = ColorCutQuantizer::approximate_to_rgb888(31 << 10);
    assert_eq!(c.0, 0xFFFF0000u32 as i32);
}

#[test]
fn test_four_pixel_scenario() {
    // Two opaque red pixels, one green, one blue; room for four colors:
    // three swatches come back with populations 2, 1 and 1, and the red one
    // is dominant.
    let pixels: Vec<i32> = vec![
        0xFFFF0000u32 as i32,
        0xFFFF0000u32 as i32,
        0xFF00FF00u32 as i32,
        0xFF0000FFu32 as i32,
    ];
    let filters = default_filters();
    let ccq = ColorCutQuantizer::new(pixels, 4, &filters);
    let swatches = ccq.get_quantized_colors();
    assert_eq!(swatches.len(), 3);

    let mut red_pop = 0;
    let mut green_pop = 0;
    let mut blue_pop = 0;
    for s in swatches.iter() {
        match s.get_rgb() as u32 {
            0xFFFF0000 => red_pop = s.get_population(),
            0xFF00FF00 => green_pop = s.get_population(),
            0xFF0000FF => blue_pop = s.get_population(),
            other => panic!("unexpected swatch color {other:#x}"),
        }
    }
    assert_eq!(red_pop, 2);
    assert_eq!(green_pop, 1);
    assert_eq!(blue_pop, 1);

    // The direct path emits one swatch per admissible bucket in ascending
    // bucket order: blue, green, red.
    assert_eq!(swatches[0].get_rgb() as u32, 0xFF0000FF);
    assert_eq!(swatches[1].get_rgb() as u32, 0xFF00FF00);
    assert_eq!(swatches[2].get_rgb() as u32, 0xFFFF0000);

    let targets = vec![naqsh::target::Target::new(naqsh::target::TargetKind::Vibrant)];
    let palette = naqsh::palette::Palette::new(swatches.clone(), targets);
    let dominant = palette.get_dominant_swatch().unwrap();
    assert_eq!(dominant.get_rgb() as u32, 0xFFFF0000);
    assert_eq!(dominant.get_population(), 2);
}

#[test]
fn test_boundedness_under_max_colors() {
    // 64 distinct mid-lightness colors but only four swatches allowed.
    let mut pixels: Vec<i32> = Vec::new();
    for i in 0..64u32 {
        let r = (i * 4) as u8;
        let color = (0xFFu32 << 24) | ((r as u32) << 16) | (0x80 << 8) | 0x40;
        pixels.push(color as i32);
        pixels.push(color as i32);
    }
    let filters = default_filters();
    let ccq = ColorCutQuantizer::new(pixels, 4, &filters);
    assert!(ccq.get_quantized_colors().len() <= 4);
}

#[test]
fn test_population_conservation_without_filters() {
    // With no filters every pixel is admissible, so the populations of the
    // swatches before the final re-check add up to the pixel count, even
    // when boxes must be split.
    let mut pixels: Vec<i32> = Vec::new();
    for i in 0..50u32 {
        let color = (0xFFu32 << 24) | ((i * 5) << 16) | ((255 - i * 3) << 8) | (i * 2);
        for _ in 0..=(i % 7) {
            pixels.push(color as i32);
        }
    }
    let n = pixels.len() as u64;
    let no_filters: Vec<DefaultFilter> = Vec::new();
    let ccq = ColorCutQuantizer::new(pixels, 8, &no_filters);
    let total: u64 = ccq.get_average_colors().iter().map(|s| s.get_population() as u64).sum();
    assert_eq!(total, n);
}

#[test]
fn test_population_conservation_counts_admissible_only() {
    // Near-black pixels are rejected by the default filter and do not count.
    let mut pixels: Vec<i32> = Vec::new();
    for _ in 0..10 {
        pixels.push(0xFF000000u32 as i32); // near black: rejected
    }
    for _ in 0..7 {
        pixels.push(0xFFFF0000u32 as i32); // pure red: admissible
    }
    let filters = default_filters();
    let ccq = ColorCutQuantizer::new(pixels, 4, &filters);
    let total: u64 = ccq.get_average_colors().iter().map(|s| s.get_population() as u64).sum();
    assert_eq!(total, 7);
}

#[test]
fn test_degenerate_image_yields_no_swatches() {
    let filters = default_filters();
    let ccq = ColorCutQuantizer::new(Vec::new(), 4, &filters);
    assert_eq!(ccq.get_quantized_colors().len(), 0);

    // All pixels filtered out: near-white is rejected by the default filter.
    let pixels = vec![0xFFFFFFFFu32 as i32; 5];
    let ccq = ColorCutQuantizer::new(pixels, 4, &filters);
    assert_eq!(ccq.get_quantized_colors().len(), 0);
}

#[test]
fn test_default_filter_bands() {
    let f = DefaultFilter;
    // Near-black and near-white are rejected.
    assert!(!f.is_allowed(0xFF000000u32 as i32, ColorUtils::rgb_to_hsl(0, 0, 0)));
    assert!(!f.is_allowed(0xFFFFFFFFu32 as i32, ColorUtils::rgb_to_hsl(255, 255, 255)));
    // The low-saturation band around red is rejected: hue 20, saturation 0.5.
    // rgb (128, 85, 64): max 128, min 64 -> lightness ~0.376.
    let hsl = ColorUtils::rgb_to_hsl(128, 85, 64);
    assert!(!f.is_allowed(0xFF805540u32 as i32, hsl));
    // A saturated pure red is allowed.
    assert!(f.is_allowed(0xFFFF0000u32 as i32, ColorUtils::rgb_to_hsl(255, 0, 0)));
}
