use naqsh::assets::{Assets, AssetsMethods};
use naqsh::color::ColorInt;
use naqsh::color_utils::ColorUtils;
use naqsh::canvas::{Canvas, Draw};
use naqsh::image::Image;
use naqsh::palette::{Palette, PaletteBuilder};
use naqsh::rect::Rect;
use naqsh::sparse_boolean_array::SparseBooleanArray;
use naqsh::swatch::Swatch;
use naqsh::target::{Target, TargetBuilder, TargetKind};

#[test]
fn test_rows_in_image() {
    let img = Image::from((5, 5, vec![
        01, 02, 03, 04,   05, 06, 07, 08,   09, 10, 11, 12,   13, 14, 15, 16,   17, 18, 19, 20,

        21, 22, 23, 24,   25, 26, 27, 28,   29, 30, 31, 32,   33, 34, 35, 36,   37, 38, 39, 40,

        41, 42, 43, 44,   45, 46, 47, 48,   49, 50, 51, 52,   53, 54, 55, 56,   57, 58, 59, 60,

        61, 62, 63, 64,   65, 66, 67, 68,   69, 70, 71, 72,   73, 74, 75, 76,   77, 78, 79, 80,

        81, 82, 83, 84,   85, 86, 87, 88,   89, 90, 91, 92,   93, 94, 95, 96,   97, 98, 99, 100
    ]));

    let row_1 = img.get_row(0).unwrap();
    let expected_row_1 = vec![
        01, 02, 03, 04,   05, 06, 07, 08,   09, 10, 11, 12,   13, 14, 15, 16,   17, 18, 19, 20
    ];
    assert_eq!(row_1.buf, expected_row_1);

    let row_2 = img.get_row(1).unwrap();
    let expected_row_2 = vec![
        21, 22, 23, 24,   25, 26, 27, 28,   29, 30, 31, 32,   33, 34, 35, 36,   37, 38, 39, 40
    ];
    assert_eq!(row_2.buf, expected_row_2);

    let row_3 = img.get_row(2).unwrap();
    let expected_row_3 = vec![
        41, 42, 43, 44,   45, 46, 47, 48,   49, 50, 51, 52,   53, 54, 55, 56,   57, 58, 59, 60
    ];
    assert_eq!(row_3.buf, expected_row_3);

    let row_4 = img.get_row(3).unwrap();
    let expected_row_4 = vec![
        61, 62, 63, 64,   65, 66, 67, 68,   69, 70, 71, 72,   73, 74, 75, 76,   77, 78, 79, 80
    ];
    assert_eq!(row_4.buf, expected_row_4);

    let row_5 = img.get_row(4).unwrap();
    let expected_row_5 = vec![
        81, 82, 83, 84,   85, 86, 87, 88,   89, 90, 91, 92,   93, 94, 95, 96,   97, 98, 99, 100
    ];
    assert_eq!(row_5.buf, expected_row_5);

    let invalid_row = img.get_row(5);
    assert!(invalid_row.is_none());
}

#[test]
fn test_pixels_in_row() {
    let img = Image::from((5, 1, vec![
        01, 02, 03, 04,   05, 06, 07, 08,   09, 10, 11, 12,   13, 14, 15, 16,   17, 18, 19, 20
    ]));

    let row = img.get_row(0).unwrap();

    let pixel_1 = row.get_pixel(0).unwrap();
    assert_eq!(pixel_1.buf, vec![01, 02, 03, 04]);

    let pixel_2 = row.get_pixel(1).unwrap();
    assert_eq!(pixel_2.buf, vec![05, 06, 07, 08]);

    let pixel_3 = row.get_pixel(2).unwrap();
    assert_eq!(pixel_3.buf, vec![09, 10, 11, 12]);

    let pixel_4 = row.get_pixel(3).unwrap();
    assert_eq!(pixel_4.buf, vec![13, 14, 15, 16]);

    let pixel_5 = row.get_pixel(4).unwrap();
    assert_eq!(pixel_5.buf, vec![17, 18, 19, 20]);

    let invalid_pixel = row.get_pixel(5);
    assert!(invalid_pixel.is_none());
}

#[test]
fn test_as_color_ints_packs_argb() {
    // Buffer bytes are red, green, blue, alpha; packed ints are ARGB.
    let img = Image::from((2, 1, vec![0x11, 0x22, 0x33, 0x44, 0xAA, 0xBB, 0xCC, 0xDD]));
    let ints = img.as_color_ints();
    assert_eq!(ints, vec![0x44112233u32 as i32, 0xDDAABBCCu32 as i32]);
}

#[test]
fn test_pixel_blend() {
    let mut below = naqsh::image::Pixel { buf: vec![100, 100, 100, 255] };
    let above = naqsh::image::Pixel { buf: vec![200, 0, 50, 128] };
    below.blend(&above);
    // Each channel is (a*p + (255-a)*s)/255 rounded up, with a = 128.
    assert_eq!(below.buf[0] as u32, (128u32 * 200 + 127 * 100 + 254) / 255);
    assert_eq!(below.buf[1] as u32, (127u32 * 100 + 254) / 255);
    assert_eq!(below.buf[2] as u32, (128u32 * 50 + 127 * 100 + 254) / 255);
    assert_eq!(below.buf[3], 255);
}

#[test]
fn test_exclusive_targets_select_different_colors() {
    // Two exclusive targets over two swatches: whatever each picks, they
    // never share a color.
    let red = Swatch::new(0xFFFF0000u32 as i32, 5);
    let cyan = Swatch::new(0xFF00C0C0u32 as i32, 3);
    let targets = vec![
        Target::new(TargetKind::Vibrant),
        Target::new(TargetKind::Vibrant),
    ];
    let palette = Palette::new(vec![red, cyan], targets);
    let first = palette.get_swatch_for_target(0);
    let second = palette.get_swatch_for_target(1);
    if let (Some(a), Some(b)) = (first, second) {
        assert_ne!(a.get_rgb(), b.get_rgb());
    } else {
        // With two swatches and two targets both must find something.
        panic!("expected both exclusive targets to select a swatch");
    }
}

#[test]
fn test_exclusive_target_leaves_nothing_for_twin() {
    // One swatch, two identical exclusive targets: the second finds nothing.
    let red = Swatch::new(0xFFFF0000u32 as i32, 5);
    let targets = vec![
        Target::new(TargetKind::Vibrant),
        Target::new(TargetKind::Vibrant),
    ];
    let palette = Palette::new(vec![red], targets);
    assert!(palette.get_swatch_for_target(0).is_some());
    assert!(palette.get_swatch_for_target(1).is_none());
}

#[test]
fn test_non_exclusive_target_may_reuse() {
    let red = Swatch::new(0xFFFF0000u32 as i32, 5);
    let exclusive = Target::new(TargetKind::Vibrant);
    let shared = TargetBuilder::new(TargetKind::Vibrant).set_exclusive(false).build();
    let palette = Palette::new(vec![red], vec![exclusive, shared]);
    assert!(palette.get_swatch_for_target(0).is_some());
    // The second target is non-exclusive, so the claimed color is still
    // eligible for it.
    assert!(palette.get_swatch_for_target(1).is_some());
}

#[test]
fn test_empty_palette_has_no_dominant() {
    let palette = Palette::new(Vec::new(), vec![Target::new(TargetKind::Muted)]);
    assert!(palette.get_dominant_swatch().is_none());
    assert!(palette.get_swatch_for_target(0).is_none());
}

#[test]
fn test_dominant_ties_keep_earliest() {
    let a = Swatch::new(0xFF336699u32 as i32, 4);
    let b = Swatch::new(0xFF993366u32 as i32, 4);
    let palette = Palette::new(vec![a, b], Vec::new());
    assert_eq!(palette.get_dominant_swatch().unwrap().get_rgb(), a.get_rgb());
}

#[test]
fn test_builder_generates_bounded_palette() {
    // A 3x1 image: red, green, blue pixels, bytes in red, green, blue, alpha
    // order.
    let img = Image::from((3, 1, vec![
        255, 0, 0, 255,
        0, 255, 0, 255,
        0, 0, 255, 255,
    ]));
    let builder = PaletteBuilder::new(img);
    assert_eq!(builder.max_colors, 16);
    assert_eq!(builder.targets.len(), 6);
    let palette = builder.generate();
    assert!(palette.get_swatches().len() <= 16);
    assert_eq!(palette.get_targets().len(), 6);
    assert!(palette.get_dominant_swatch().is_some());
}

#[test]
fn test_region_restricts_sampling() {
    // A 2x1 image: a red pixel then a green one. With the region set to the
    // left pixel only, the palette sees just red.
    let img = Image::from((2, 1, vec![
        255, 0, 0, 255,
        0, 255, 0, 255,
    ]));
    let mut builder = PaletteBuilder::new(img);
    builder.region = Rect::new(0, 0, 1, 1);
    let palette = builder.generate();
    assert_eq!(palette.get_swatches().len(), 1);
    assert_eq!(palette.get_swatches()[0].get_rgb() as u32, 0xFFFF0000);

    // With the default empty region the whole image is sampled.
    let img = Image::from((2, 1, vec![
        255, 0, 0, 255,
        0, 255, 0, 255,
    ]));
    let palette = PaletteBuilder::new(img).generate();
    assert_eq!(palette.get_swatches().len(), 2);
}

#[test]
fn test_target_canonical_ranges() {
    let vibrant = Target::new(TargetKind::Vibrant);
    assert_eq!(vibrant.get_minimum_saturation(), 350);
    assert_eq!(vibrant.get_target_saturation(), 1000);
    assert_eq!(vibrant.get_maximum_saturation(), 1000);
    assert_eq!(vibrant.get_minimum_lightness(), 300);
    assert_eq!(vibrant.get_target_lightness(), 500);
    assert_eq!(vibrant.get_maximum_lightness(), 700);
    assert!(vibrant.is_exclusive());

    let dark_muted = Target::new(TargetKind::DarkMuted);
    assert_eq!(dark_muted.get_target_saturation(), 300);
    assert_eq!(dark_muted.get_maximum_saturation(), 400);
    assert_eq!(dark_muted.get_target_lightness(), 260);
    assert_eq!(dark_muted.get_maximum_lightness(), 450);

    // The default weights 0.24/0.52/0.24 normalize over their sum 1000.
    let w = vibrant.get_saturation_weight();
    assert_eq!((w.num, w.den), (240, 1000));
    let w = vibrant.get_lightness_weight();
    assert_eq!((w.num, w.den), (520, 1000));
    let w = vibrant.get_population_weight();
    assert_eq!((w.num, w.den), (240, 1000));
}

#[test]
fn test_target_builder_overrides() {
    let t = TargetBuilder::new(TargetKind::Muted)
        .set_minimum_saturation(100)
        .set_target_saturation(200)
        .set_maximum_saturation(300)
        .set_minimum_lightness(400)
        .set_target_lightness(500)
        .set_maximum_lightness(600)
        .set_saturation_weight(100)
        .set_lightness_weight(300)
        .set_population_weight(0)
        .set_exclusive(false)
        .build();
    assert_eq!(t.get_minimum_saturation(), 100);
    assert_eq!(t.get_target_saturation(), 200);
    assert_eq!(t.get_maximum_saturation(), 300);
    assert_eq!(t.get_minimum_lightness(), 400);
    assert_eq!(t.get_target_lightness(), 500);
    assert_eq!(t.get_maximum_lightness(), 600);
    assert!(!t.is_exclusive());
    // Only positive weights take part in normalization.
    let w = t.get_saturation_weight();
    assert_eq!((w.num, w.den), (100, 400));
    let w = t.get_population_weight();
    assert_eq!((w.num, w.den), (0, 400));
}

#[test]
fn test_swatch_text_colors_have_contrast() {
    let swatch = Swatch::new(0xFF202020u32 as i32, 1);
    let body = swatch.get_body_text_color();
    let title = swatch.get_title_text_color();
    let bg = ColorInt(swatch.get_rgb());
    assert!(ColorUtils::calculate_contrast(ColorInt(body), bg) >= 4_500);
    assert!(ColorUtils::calculate_contrast(ColorInt(title), bg) >= 3_000);
    // Over a dark swatch the text base color is white.
    assert_eq!(body as u32 & 0x00FF_FFFF, 0x00FF_FFFF);
}

#[test]
fn test_sparse_boolean_array() {
    let mut arr = SparseBooleanArray::new(4);
    assert!(!arr.get_or_false(7));
    arr.put(7, true);
    arr.put(3, false);
    assert!(arr.get_or_false(7));
    assert!(!arr.get_or_false(3));
    assert!(arr.get(3, true) == false);
    assert!(arr.get(99, true) == true);
    arr.put(7, false);
    assert!(!arr.get_or_false(7));
    arr.delete(3);
    assert!(arr.get(3, true));
    arr.append(100, true);
    arr.append(50, true);
    assert!(arr.get_or_false(100));
    assert!(arr.get_or_false(50));
    arr.clear();
    assert!(!arr.get_or_false(100));
}

#[test]
fn test_rect_operations() {
    let mut r = Rect::new(0, 0, 10, 8);
    assert!(!r.is_empty());
    assert!(r.is_valid());
    assert_eq!(r.width(), 10);
    assert_eq!(r.height(), 8);
    assert_eq!(r.center_x(), 5);
    assert_eq!(r.center_y(), 4);
    r.offset(2, 3);
    assert_eq!((r.left, r.top, r.right, r.bottom), (2, 3, 12, 11));
    r.offset_to(0, 0);
    assert_eq!((r.left, r.top, r.right, r.bottom), (0, 0, 10, 8));
    assert!(r.intersects(5, 5, 20, 20));
    assert!(r.intersect(5, 5, 20, 20));
    assert_eq!((r.left, r.top, r.right, r.bottom), (5, 5, 10, 8));
    let mut r2 = Rect::new(0, 0, 4, 4);
    assert!(!r2.intersect(10, 10, 20, 20));
    r2.set(1, 1, 3, 3);
    r2.intersect_unchecked(Rect::new(2, 0, 10, 2));
    assert_eq!((r2.left, r2.top, r2.right, r2.bottom), (2, 1, 3, 2));
    let empty = Rect::new(5, 5, 5, 9);
    assert!(empty.is_empty());
}

#[test]
fn test_canvas_draw_clips_and_copies() {
    // A 2x2 black canvas; a 1x1 white object drawn at (1, 0).
    let canvas_img = Image::from((2, 2, vec![0u8; 16]));
    let object = Image::from((1, 1, vec![255, 254, 253, 252]));
    let canvas = Canvas { image: canvas_img };
    let out = canvas.draw(object, (1, 0));
    assert_eq!(out.image.buf[0..4], [0, 0, 0, 0]);
    assert_eq!(out.image.buf[4..8], [255, 254, 253, 252]);
    assert_eq!(out.image.buf[8..16], [0u8; 8]);

    // Drawing entirely off the canvas changes nothing.
    let object2 = Image::from((1, 1, vec![9, 9, 9, 9]));
    let out2 = out.draw_image(object2, (5, 5));
    assert_eq!(out2.image.buf[4..8], [255, 254, 253, 252]);

    // A negative origin clips the object's off-canvas part.
    let object3 = Image::from((2, 1, vec![1, 2, 3, 4, 5, 6, 7, 8]));
    let out3 = out2.draw_image(object3, (-1, 1));
    assert_eq!(out3.image.buf[8..12], [5, 6, 7, 8]);
    assert_eq!(out3.image.buf[12..16], [0u8; 4]);
}

#[test]
fn test_assets_store() {
    let mut assets = Assets::new();
    let img = Image::new(1, 1, String::from("rgba"));
    assert!(assets.insert("icon", img).is_none());
    assert!(assets.get("icon").is_some());
    assert_eq!(assets.get("icon").unwrap().width, 1);
    assert!(assets.get("missing").is_none());

    let img2 = Image::new(2, 2, String::from("rgba"));
    let prev = assets.insert("icon", img2);
    assert_eq!(prev.unwrap().width, 1);
    assert_eq!(assets.get("icon").unwrap().width, 2);

    let removed = assets.remove("icon");
    assert_eq!(removed.unwrap().width, 2);
    assert!(assets.get("icon").is_none());
    assert!(assets.remove("icon").is_none());
}
