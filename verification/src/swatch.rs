//! Swatches: a representative color plus the pixel population it stands for,
//! with text colors of guaranteed contrast derived on demand.

use vstd::prelude::*;

use crate::color::{spec_alpha, spec_argb, spec_blue, spec_green, spec_red, Color, ColorInt};
use crate::color_utils::{
    lemma_minimum_alpha_monotonic, spec_contrast_millis, spec_hsl, spec_minimum_alpha,
    spec_set_alpha, ColorUtils, Hsl,
};

verus! {

/// Contrast required of body text over a swatch, in thousandths.
pub const MIN_CONTRAST_BODY_TEXT: u32 = 4500;

/// Contrast required of title text over a swatch, in thousandths.
pub const MIN_CONTRAST_TITLE_TEXT: u32 = 3000;

/// Fully opaque white, packed.
pub open spec fn spec_white() -> i32 {
    spec_argb(255, 255, 255, 255)
}

/// Fully opaque black, packed.
pub open spec fn spec_black() -> i32 {
    spec_argb(255, 0, 0, 0)
}

/// The text color for a given contrast threshold over the swatch color
/// `rgb`: white at its minimum passing alpha when white passes both the body
/// and title thresholds, else black at its minimum passing alpha when black
/// passes both, else whichever of the two passes this threshold.
pub open spec fn spec_text_color(rgb: i32, threshold: int) -> i32 {
    let light_body = spec_minimum_alpha(spec_white(), rgb, MIN_CONTRAST_BODY_TEXT as int);
    let light_title = spec_minimum_alpha(spec_white(), rgb, MIN_CONTRAST_TITLE_TEXT as int);
    let dark_body = spec_minimum_alpha(spec_black(), rgb, MIN_CONTRAST_BODY_TEXT as int);
    let dark_title = spec_minimum_alpha(spec_black(), rgb, MIN_CONTRAST_TITLE_TEXT as int);
    let light = spec_minimum_alpha(spec_white(), rgb, threshold);
    let dark = spec_minimum_alpha(spec_black(), rgb, threshold);
    if light_body != -1 && light_title != -1 {
        spec_set_alpha(spec_white(), light as u8)
    } else if dark_body != -1 && dark_title != -1 {
        spec_set_alpha(spec_black(), dark as u8)
    } else if light != -1 {
        spec_set_alpha(spec_white(), light as u8)
    } else {
        spec_set_alpha(spec_black(), dark as u8)
    }
}

/// A color swatch generated from an image's palette: a quantized color and
/// the number of pixels it stands for.
#[derive(PartialEq, Eq, Structural, Clone, Copy, Debug)]
pub struct Swatch {
    pub red: u8,
    pub green: u8,
    pub blue: u8,
    pub rgb: i32,
    pub population: u32,
    pub hsl: Hsl,
}

impl Swatch {
    /// Well-formed: the channel fields and the hue-saturation-lightness form
    /// match the packed color, which is fully opaque.
    pub open spec fn wf(self) -> bool {
        &&& spec_alpha(self.rgb) == 255
        &&& self.red == spec_red(self.rgb)
        &&& self.green == spec_green(self.rgb)
        &&& self.blue == spec_blue(self.rgb)
        &&& self.hsl == spec_hsl(self.red, self.green, self.blue)
    }

    /// Create a swatch for an opaque color and a pixel population.
    pub fn new(color: i32, population: u32) -> (s: Swatch)
        requires
            spec_alpha(color) == 255,
        ensures
            s.wf(),
            s.rgb == color,
            s.population == population,
    {
        let c = ColorInt(color);
        let red = c.red();
        let green = c.green();
        let blue = c.blue();
        Swatch {
            red,
            green,
            blue,
            rgb: color,
            population,
            hsl: ColorUtils::rgb_to_hsl(red, green, blue),
        }
    }

    /// This swatch's packed color.
    pub fn get_rgb(&self) -> (r: i32)
        ensures
            r == self.rgb,
    {
        self.rgb
    }

    /// This swatch's color in hue-saturation-lightness form.
    pub fn get_hsl(&self) -> (r: Hsl)
        ensures
            r == self.hsl,
    {
        self.hsl
    }

    /// The number of pixels represented by this swatch.
    pub fn get_population(&self) -> (r: u32)
        ensures
            r == self.population,
    {
        self.population
    }

    fn text_color(&self, threshold: u32) -> (r: i32)
        requires
            self.wf(),
            threshold == MIN_CONTRAST_BODY_TEXT || threshold == MIN_CONTRAST_TITLE_TEXT,
        ensures
            r == spec_text_color(self.rgb, threshold as int),
            spec_minimum_alpha(spec_white(), self.rgb, threshold as int) != -1
                || spec_minimum_alpha(spec_black(), self.rgb, threshold as int) != -1
                ==> spec_contrast_millis(r, self.rgb) >= threshold,
    {
        let bg = ColorInt(self.rgb);
        let white = Color::white();
        let black = Color::black();
        let light_body = ColorUtils::calculate_minimum_alpha(white, bg, MIN_CONTRAST_BODY_TEXT);
        let light_title = ColorUtils::calculate_minimum_alpha(white, bg, MIN_CONTRAST_TITLE_TEXT);
        let light = ColorUtils::calculate_minimum_alpha(white, bg, threshold);
        let dark_body = ColorUtils::calculate_minimum_alpha(black, bg, MIN_CONTRAST_BODY_TEXT);
        let dark_title = ColorUtils::calculate_minimum_alpha(black, bg, MIN_CONTRAST_TITLE_TEXT);
        let dark = ColorUtils::calculate_minimum_alpha(black, bg, threshold);
        proof {
            if light_body != -1 {
                lemma_minimum_alpha_monotonic(
                    spec_white(),
                    self.rgb,
                    threshold as int,
                    MIN_CONTRAST_BODY_TEXT as int,
                );
                lemma_minimum_alpha_monotonic(
                    spec_white(),
                    self.rgb,
                    MIN_CONTRAST_TITLE_TEXT as int,
                    MIN_CONTRAST_BODY_TEXT as int,
                );
            }
            if dark_body != -1 {
                lemma_minimum_alpha_monotonic(
                    spec_black(),
                    self.rgb,
                    threshold as int,
                    MIN_CONTRAST_BODY_TEXT as int,
                );
                lemma_minimum_alpha_monotonic(
                    spec_black(),
                    self.rgb,
                    MIN_CONTRAST_TITLE_TEXT as int,
                    MIN_CONTRAST_BODY_TEXT as int,
                );
            }
        }
        if light_body != -1 && light_title != -1 {
            ColorUtils::set_alpha_component(white, (#[verifier::truncate] (light as u8))).0
        } else if dark_body != -1 && dark_title != -1 {
            ColorUtils::set_alpha_component(black, (#[verifier::truncate] (dark as u8))).0
        } else if light != -1 {
            ColorUtils::set_alpha_component(white, (#[verifier::truncate] (light as u8))).0
        } else {
            ColorUtils::set_alpha_component(black, (#[verifier::truncate] (dark as u8))).0
        }
    }

    /// A color for title text shown over this swatch's color. Whenever some
    /// base text color can reach the title contrast threshold at all, the
    /// result meets it.
    pub fn get_title_text_color(&self) -> (r: i32)
        requires
            self.wf(),
        ensures
            r == spec_text_color(self.rgb, MIN_CONTRAST_TITLE_TEXT as int),
            spec_minimum_alpha(spec_white(), self.rgb, MIN_CONTRAST_TITLE_TEXT as int) != -1
                || spec_minimum_alpha(spec_black(), self.rgb, MIN_CONTRAST_TITLE_TEXT as int)
                != -1 ==> spec_contrast_millis(r, self.rgb) >= MIN_CONTRAST_TITLE_TEXT,
    {
        self.text_color(MIN_CONTRAST_TITLE_TEXT)
    }

    /// A color for body text shown over this swatch's color. Whenever some
    /// base text color can reach the body contrast threshold at all, the
    /// result meets it.
    pub fn get_body_text_color(&self) -> (r: i32)
        requires
            self.wf(),
        ensures
            r == spec_text_color(self.rgb, MIN_CONTRAST_BODY_TEXT as int),
            spec_minimum_alpha(spec_white(), self.rgb, MIN_CONTRAST_BODY_TEXT as int) != -1
                || spec_minimum_alpha(spec_black(), self.rgb, MIN_CONTRAST_BODY_TEXT as int)
                != -1 ==> spec_contrast_millis(r, self.rgb) >= MIN_CONTRAST_BODY_TEXT,
    {
        self.text_color(MIN_CONTRAST_BODY_TEXT)
    }
}

} // verus!
