//! Colorimetric conversions and alpha compositing over packed colors.
//!
//! Hue, saturation and lightness are carried as exact rationals
//! ([`Ratio`]), so every conversion here is stated and proved exactly.

use vstd::prelude::*;

use crate::color::{Color, ColorInt};
use crate::color::{spec_alpha, spec_argb, spec_blue, spec_green, spec_red};
use crate::luminance::{linear_component, spec_luminance};
use crate::ratio::Ratio;

verus! {

/// A color in hue-saturation-lightness form.
///
/// Hue lies in `[0, 360)` degrees; saturation and lightness lie in `[0, 1]`.
#[derive(PartialEq, Eq, Structural, Clone, Copy, Debug, Hash)]
pub struct Hsl {
    pub hue: Ratio,
    pub saturation: Ratio,
    pub lightness: Ratio,
}

impl Hsl {
    /// Well-formed: all three components are rationals in their ranges.
    pub open spec fn wf(self) -> bool {
        &&& self.hue.wf()
        &&& self.saturation.wf()
        &&& self.lightness.wf()
        &&& self.hue.lt_spec((Ratio { num: 360, den: 1 }))
        &&& self.saturation.le_spec((Ratio { num: 1, den: 1 }))
        &&& self.lightness.le_spec((Ratio { num: 1, den: 1 }))
    }
}

/// The largest of three channel values, ties favoring red, then green.
pub open spec fn max3(r: int, g: int, b: int) -> int {
    if r >= g && r >= b {
        r
    } else if g >= b {
        g
    } else {
        b
    }
}

/// The smallest of three channel values.
pub open spec fn min3(r: int, g: int, b: int) -> int {
    if r <= g && r <= b {
        r
    } else if g <= b {
        g
    } else {
        b
    }
}

/// Numerator of the hue over denominator `max3 - min3`, for a
/// non-monochromatic color: the channel-dependent offset formula, scaled by
/// 60 and brought into `[0, 360)` degrees.
pub open spec fn spec_hue_num(r: int, g: int, b: int) -> int {
    let delta = max3(r, g, b) - min3(r, g, b);
    if r >= g && r >= b {
        if g >= b {
            60 * (g - b)
        } else {
            360 * delta - 60 * (b - g)
        }
    } else if g >= b {
        120 * delta + 60 * (b - r)
    } else {
        240 * delta + 60 * (r - g)
    }
}

/// Denominator of the saturation: `255 - |max + min - 255|`, which is
/// `255` times `1 - |2·lightness - 1|`.
pub open spec fn spec_sat_den(r: int, g: int, b: int) -> int {
    let sum = max3(r, g, b) + min3(r, g, b);
    if sum >= 255 {
        510 - sum
    } else {
        sum
    }
}

/// The exact hue-saturation-lightness form of an 8-bit RGB color:
/// lightness is `(max + min) / 510`, saturation is `delta` over
/// [`spec_sat_den`], and hue is [`spec_hue_num`] over `delta`; a
/// monochromatic color has hue 0 and saturation 0.
pub open spec fn spec_hsl(r: u8, g: u8, b: u8) -> Hsl {
    let mx = max3(r as int, g as int, b as int);
    let mn = min3(r as int, g as int, b as int);
    let delta = mx - mn;
    let sum = mx + mn;
    Hsl {
        hue: if delta == 0 {
            Ratio { num: 0, den: 1 }
        } else {
            Ratio { num: spec_hue_num(r as int, g as int, b as int) as u32, den: delta as u32 }
        },
        saturation: if delta == 0 {
            Ratio { num: 0, den: 1 }
        } else {
            Ratio { num: delta as u32, den: spec_sat_den(r as int, g as int, b as int) as u32 }
        },
        lightness: Ratio { num: sum as u32, den: 510 },
    }
}

/// The packed color `c` with its alpha component replaced by `a`.
pub open spec fn spec_set_alpha(c: i32, a: u8) -> i32 {
    ((((c as u32) & 0x00ff_ffff) | ((a as u32) << 24)) as i32)
}

/// The composited alpha of a foreground over a background:
/// `255 - (255 - bg) * (255 - fg) / 255`.
pub open spec fn spec_composite_alpha(fg_a: u8, bg_a: u8) -> int {
    255 - ((255 - bg_a as int) * (255 - fg_a as int)) / 255
}

/// One channel of a foreground composited over a background at combined
/// alpha `a`: `(255·fg·fg_a + bg·bg_a·(255 - fg_a)) / (a·255)`, and 0 when
/// the combined alpha is 0.
pub open spec fn spec_composite_component(fg_c: u8, fg_a: u8, bg_c: u8, bg_a: u8, a: int) -> int {
    if a == 0 {
        0
    } else {
        (255 * fg_c * fg_a + bg_c * bg_a * (255 - fg_a)) / (a * 255)
    }
}

/// The foreground composited over the background with the "over" operator,
/// channel by channel.
pub open spec fn spec_composite_colors(fg: i32, bg: i32) -> i32 {
    let a = spec_composite_alpha(spec_alpha(fg), spec_alpha(bg));
    spec_argb(
        a as u8,
        spec_composite_component(spec_red(fg), spec_alpha(fg), spec_red(bg), spec_alpha(bg), a) as u8,
        spec_composite_component(spec_green(fg), spec_alpha(fg), spec_green(bg), spec_alpha(bg), a) as u8,
        spec_composite_component(spec_blue(fg), spec_alpha(fg), spec_blue(bg), spec_alpha(bg), a) as u8,
    )
}

/// The WCAG contrast ratio between a foreground and an opaque background, in
/// thousandths, rounded down: a translucent foreground is first composited
/// over the background, then the lighter augmented luminance
/// `L + 0.05` is divided by the darker one. Because the result is in
/// thousandths, comparing it against a threshold given in thousandths is
/// exactly the comparison of the underlying rationals.
pub open spec fn spec_contrast_millis(fg: i32, bg: i32) -> int {
    let f = if spec_alpha(fg) < 255 {
        spec_composite_colors(fg, bg)
    } else {
        fg
    };
    let l1 = spec_luminance(f) + 50_000_000_000;
    let l2 = spec_luminance(bg) + 50_000_000_000;
    if l1 >= l2 {
        (1000 * l1) / l2
    } else {
        (1000 * l2) / l1
    }
}

/// The state of the bounded binary search for the minimum alpha meeting a
/// contrast threshold: narrow `[min_a, max_a]` around the threshold until the
/// window is one wide or the fuel runs out, and return the window's upper
/// bound, which is known to pass.
pub open spec fn spec_alpha_search(
    fg: i32,
    bg: i32,
    ratio_millis: int,
    min_a: int,
    max_a: int,
    fuel: nat,
) -> int
    decreases fuel,
{
    if fuel == 0 || max_a - min_a <= 1 {
        max_a
    } else {
        let t = (min_a + max_a) / 2;
        if spec_contrast_millis(spec_set_alpha(fg, t as u8), bg) < ratio_millis {
            spec_alpha_search(fg, bg, ratio_millis, t, max_a, (fuel - 1) as nat)
        } else {
            spec_alpha_search(fg, bg, ratio_millis, min_a, t, (fuel - 1) as nat)
        }
    }
}

/// The minimum alpha meeting a contrast threshold: -1 when even a fully
/// opaque foreground falls short, otherwise the result of an 11-step binary
/// search over `[0, 255]`.
pub open spec fn spec_minimum_alpha(fg: i32, bg: i32, ratio_millis: int) -> int {
    if spec_contrast_millis(spec_set_alpha(fg, 255), bg) < ratio_millis {
        -1
    } else {
        spec_alpha_search(fg, bg, ratio_millis, 0, 255, 11)
    }
}

/// The alpha search never leaves the window it was given.
pub proof fn lemma_alpha_search_range(
    fg: i32,
    bg: i32,
    ratio_millis: int,
    min_a: int,
    max_a: int,
    fuel: nat,
)
    requires
        min_a <= max_a,
    ensures
        min_a <= spec_alpha_search(fg, bg, ratio_millis, min_a, max_a, fuel) <= max_a,
    decreases fuel,
{
    if fuel == 0 || max_a - min_a <= 1 {
    } else {
        let t = (min_a + max_a) / 2;
        if spec_contrast_millis(spec_set_alpha(fg, t as u8), bg) < ratio_millis {
            lemma_alpha_search_range(fg, bg, ratio_millis, t, max_a, (fuel - 1) as nat);
        } else {
            lemma_alpha_search_range(fg, bg, ratio_millis, min_a, t, (fuel - 1) as nat);
        }
    }
}

/// The alpha search is monotone in the contrast threshold: a higher
/// threshold never yields a smaller alpha.
proof fn lemma_alpha_search_monotonic(
    fg: i32,
    bg: i32,
    r1: int,
    r2: int,
    min_a: int,
    max_a: int,
    fuel: nat,
)
    requires
        r1 <= r2,
        min_a <= max_a,
    ensures
        spec_alpha_search(fg, bg, r1, min_a, max_a, fuel) <= spec_alpha_search(
            fg,
            bg,
            r2,
            min_a,
            max_a,
            fuel,
        ),
    decreases fuel,
{
    if fuel == 0 || max_a - min_a <= 1 {
    } else {
        let t = (min_a + max_a) / 2;
        let c = spec_contrast_millis(spec_set_alpha(fg, t as u8), bg);
        if c < r1 {
            lemma_alpha_search_monotonic(fg, bg, r1, r2, t, max_a, (fuel - 1) as nat);
        } else if c >= r2 {
            lemma_alpha_search_monotonic(fg, bg, r1, r2, min_a, t, (fuel - 1) as nat);
        } else {
            lemma_alpha_search_range(fg, bg, r1, min_a, t, (fuel - 1) as nat);
            lemma_alpha_search_range(fg, bg, r2, t, max_a, (fuel - 1) as nat);
        }
    }
}

/// The minimum alpha is non-decreasing as the required contrast ratio
/// increases: for thresholds `r1 <= r2` on the same colors, whenever the
/// higher threshold is achievable at all, so is the lower one, and its
/// minimum alpha is no larger.
pub proof fn lemma_minimum_alpha_monotonic(fg: i32, bg: i32, r1: int, r2: int)
    requires
        r1 <= r2,
        spec_minimum_alpha(fg, bg, r2) != -1,
    ensures
        spec_minimum_alpha(fg, bg, r1) != -1,
        spec_minimum_alpha(fg, bg, r1) <= spec_minimum_alpha(fg, bg, r2),
{
    lemma_alpha_search_range(fg, bg, r1, 0, 255, 11);
    lemma_alpha_search_range(fg, bg, r2, 0, 255, 11);
    lemma_alpha_search_monotonic(fg, bg, r1, r2, 0, 255, 11);
}

/// The channel numerator is at most `255 · 255 · a` when `a` is the
/// composited alpha, so the composited channel is at most 255.
proof fn lemma_composite_component_in_range(fg_c: u8, fg_a: u8, bg_c: u8, bg_a: u8, a: int)
    requires
        a == spec_composite_alpha(fg_a, bg_a),
        a >= 1,
    ensures
        255 * fg_c * fg_a + bg_c * bg_a * (255 - fg_a) <= a * 255 * 255,
{
    let k = (255 - bg_a as int) * (255 - fg_a as int);
    let d = k / 255;
    assert(0 <= k <= 65025) by (nonlinear_arith)
        requires
            k == (255 - bg_a as int) * (255 - fg_a as int),
    ;
    assert(255 * d <= k);
    assert(255 * fg_c * fg_a <= 255 * 255 * fg_a) by (nonlinear_arith);
    assert(bg_c * bg_a * (255 - fg_a) <= 255 * bg_a * (255 - fg_a)) by (nonlinear_arith);
    assert(255 * 255 * fg_a + 255 * bg_a * (255 - fg_a) == 255 * (255 * 255 - k))
        by (nonlinear_arith)
        requires
            k == (255 - bg_a as int) * (255 - fg_a as int),
    ;
    assert(255 * (255 * 255 - k) <= (255 - d) * 255 * 255) by (nonlinear_arith)
        requires
            255 * d <= k,
    ;
}

/// Utility operations on packed colors: conversion to hue-saturation-lightness,
/// alpha compositing, relative luminance and contrast.
pub struct ColorUtils;

impl ColorUtils {
    /// Convert 8-bit RGB components to their exact hue-saturation-lightness
    /// form. A monochromatic input yields hue 0, saturation 0 and lightness
    /// equal to the channel value over 255.
    pub fn rgb_to_hsl(r: u8, g: u8, b: u8) -> (hsl: Hsl)
        ensures
            hsl == spec_hsl(r, g, b),
            hsl.wf(),
            r == g && g == b ==> hsl.saturation.num == 0 && hsl.hue.num == 0
                && hsl.lightness.eq_value_spec((Ratio { num: r as u32, den: 255 })),
    {
        let rf = r as u32;
        let gf = g as u32;
        let bf = b as u32;
        let mx = if rf >= gf && rf >= bf {
            rf
        } else if gf >= bf {
            gf
        } else {
            bf
        };
        let mn = if rf <= gf && rf <= bf {
            rf
        } else if gf <= bf {
            gf
        } else {
            bf
        };
        let delta = mx - mn;
        let sum = mx + mn;
        let lightness = Ratio { num: sum, den: 510 };
        if delta == 0 {
            Hsl {
                hue: Ratio { num: 0, den: 1 },
                saturation: Ratio { num: 0, den: 1 },
                lightness,
            }
        } else {
            let sat_den = if sum >= 255 {
                510 - sum
            } else {
                sum
            };
            let hue_num: u32 = if rf >= gf && rf >= bf {
                if gf >= bf {
                    60 * (gf - bf)
                } else {
                    360 * delta - 60 * (bf - gf)
                }
            } else if gf >= bf {
                120 * delta + 60 * bf - 60 * rf
            } else {
                240 * delta + 60 * rf - 60 * gf
            };
            Hsl {
                hue: Ratio { num: hue_num, den: delta },
                saturation: Ratio { num: delta, den: sat_den },
                lightness,
            }
        }
    }

    /// Convert a packed color to its hue-saturation-lightness form; the
    /// alpha component is ignored.
    pub fn color_to_hsl(color: ColorInt) -> (hsl: Hsl)
        ensures
            hsl == spec_hsl(spec_red(color.0), spec_green(color.0), spec_blue(color.0)),
            hsl.wf(),
    {
        Self::rgb_to_hsl(Color::red(color), Color::green(color), Color::blue(color))
    }

    /// Set the alpha component of `color` to `alpha`, leaving the color
    /// channels unchanged.
    pub fn set_alpha_component(color: ColorInt, alpha: u8) -> (c: ColorInt)
        ensures
            c.0 == spec_set_alpha(color.0, alpha),
            spec_alpha(c.0) == alpha,
            spec_red(c.0) == spec_red(color.0),
            spec_green(c.0) == spec_green(color.0),
            spec_blue(c.0) == spec_blue(color.0),
    {
        proof {
            let c0 = color.0;
            assert(spec_alpha(spec_set_alpha(c0, alpha)) == alpha
                && spec_red(spec_set_alpha(c0, alpha)) == spec_red(c0)
                && spec_green(spec_set_alpha(c0, alpha)) == spec_green(c0)
                && spec_blue(spec_set_alpha(c0, alpha)) == spec_blue(c0)) by (bit_vector);
        }
        ColorInt(((((color.0 as u32) & 0x00ff_ffff) | ((alpha as u32) << 24)) as i32))
    }

    /// Composite a foreground alpha over a background alpha.
    pub fn composite_alpha(foreground_alpha: u8, background_alpha: u8) -> (r: u8)
        ensures
            r as int == spec_composite_alpha(foreground_alpha, background_alpha),
    {
        let bg = background_alpha as u32;
        let fg = foreground_alpha as u32;
        proof {
            assert((255 - background_alpha as int) * (255 - foreground_alpha as int) <= 65025
                && (255 - background_alpha as int) * (255 - foreground_alpha as int) >= 0)
                by (nonlinear_arith);
        }
        ((255 - ((255 - bg) * (255 - fg)) / 255) as u8)
    }

    /// Composite one color channel of a foreground over a background.
    /// `a` must be the composited alpha of the two alpha components.
    pub fn composite_component(fg_c: u8, fg_a: u8, bg_c: u8, bg_a: u8, a: u8) -> (r: u8)
        requires
            a as int == spec_composite_alpha(fg_a, bg_a),
        ensures
            r as int == spec_composite_component(fg_c, fg_a, bg_c, bg_a, a as int),
    {
        if a == 0 {
            return 0;
        }
        proof {
            assert(255 * fg_c * fg_a <= 16581375 && bg_c * bg_a * (255 - fg_a as int) <= 16581375
                && 255 * fg_c * fg_a >= 0 && bg_c * bg_a * (255 - fg_a as int) >= 0
                && 0 <= bg_c * bg_a <= 65025) by (nonlinear_arith);
            lemma_composite_component_in_range(fg_c, fg_a, bg_c, bg_a, a as int);
        }
        let num: u64 = 255 * (fg_c as u64) * (fg_a as u64) + (bg_c as u64) * (bg_a as u64) * (255
            - (fg_a as u64));
        let den: u64 = (a as u64) * 255;
        proof {
            assert(num as int / den as int <= 255) by (nonlinear_arith)
                requires
                    num <= (a as int) * 255 * 255,
                    den == (a as int) * 255,
                    a >= 1,
            ;
        }
        ((num / den) as u8)
    }

    /// Composite a foreground color over a background color with the
    /// standard "over" operator, channel by channel.
    pub fn composite_colors(foreground: ColorInt, background: ColorInt) -> (r: i32)
        ensures
            r == spec_composite_colors(foreground.0, background.0),
    {
        let bg_alpha = Color::alpha(background);
        let fg_alpha = Color::alpha(foreground);
        let a = Self::composite_alpha(fg_alpha, bg_alpha);

        let r = Self::composite_component(
            Color::red(foreground),
            fg_alpha,
            Color::red(background),
            bg_alpha,
            a,
        );
        let g = Self::composite_component(
            Color::green(foreground),
            fg_alpha,
            Color::green(background),
            bg_alpha,
            a,
        );
        let b = Self::composite_component(
            Color::blue(foreground),
            fg_alpha,
            Color::blue(background),
            bg_alpha,
            a,
        );

        Color::argb(a, r, g, b).0
    }

    /// Relative luminance of a packed color, scaled by
    /// [`crate::luminance::LUMINANCE_DEN`]; the alpha component is ignored.
    pub fn calculate_luminance(color: ColorInt) -> (l: u64)
        ensures
            l as int == spec_luminance(color.0),
    {
        let r = linear_component(Color::red(color));
        let g = linear_component(Color::green(color));
        let b = linear_component(Color::blue(color));
        2126 * (r as u64) + 7152 * (g as u64) + 722 * (b as u64)
    }

    /// The WCAG contrast ratio between `foreground` and `background`, in
    /// thousandths, rounded down. The background must be fully opaque; a
    /// translucent foreground is first composited over the background.
    pub fn calculate_contrast(foreground: ColorInt, background: ColorInt) -> (r: u64)
        requires
            spec_alpha(background.0) == 255,
        ensures
            r as int == spec_contrast_millis(foreground.0, background.0),
    {
        let fg = if Color::alpha(foreground) < 255 {
            ColorInt(Self::composite_colors(foreground, background))
        } else {
            foreground
        };
        let l1: u64 = Self::calculate_luminance(fg) + 50_000_000_000;
        let l2: u64 = Self::calculate_luminance(background) + 50_000_000_000;
        if l1 >= l2 {
            (1000 * l1) / l2
        } else {
            (1000 * l2) / l1
        }
    }

    /// The minimum alpha that can be applied to `foreground` so that it has
    /// a contrast of at least `min_contrast_millis` thousandths against the
    /// opaque `background`, or -1 when even a fully opaque foreground falls
    /// short. A result other than -1 lies in `[0, 255]` and is known to meet
    /// the threshold.
    pub fn calculate_minimum_alpha(
        foreground: ColorInt,
        background: ColorInt,
        min_contrast_millis: u32,
    ) -> (r: i32)
        requires
            spec_alpha(background.0) == 255,
        ensures
            r == spec_minimum_alpha(foreground.0, background.0, min_contrast_millis as int),
            (r == -1) <==> spec_contrast_millis(spec_set_alpha(foreground.0, 255), background.0)
                < min_contrast_millis,
            r != -1 ==> 0 <= r <= 255 && spec_contrast_millis(
                spec_set_alpha(foreground.0, r as u8),
                background.0,
            ) >= min_contrast_millis,
    {
        let test_foreground = Self::set_alpha_component(foreground, 255);
        let test_ratio = Self::calculate_contrast(test_foreground, background);
        if test_ratio < min_contrast_millis as u64 {
            return -1;
        }

        let mut num_iterations: u32 = 0;
        let mut min_alpha: u32 = 0;
        let mut max_alpha: u32 = 255;

        while num_iterations <= 10 && max_alpha - min_alpha > 1
            invariant
                spec_alpha(background.0) == 255,
                min_alpha <= max_alpha <= 255,
                num_iterations <= 11,
                spec_contrast_millis(
                    spec_set_alpha(foreground.0, max_alpha as u8),
                    background.0,
                ) >= min_contrast_millis,
                spec_alpha_search(
                    foreground.0,
                    background.0,
                    min_contrast_millis as int,
                    min_alpha as int,
                    max_alpha as int,
                    (11 - num_iterations) as nat,
                ) == spec_alpha_search(
                    foreground.0,
                    background.0,
                    min_contrast_millis as int,
                    0,
                    255,
                    11,
                ),
            decreases 11 - num_iterations,
        {
            let test_alpha = (min_alpha + max_alpha) / 2;
            let test_fg = Self::set_alpha_component(foreground, test_alpha as u8);
            let test_contrast = Self::calculate_contrast(test_fg, background);

            if test_contrast < min_contrast_millis as u64 {
                min_alpha = test_alpha;
            } else {
                max_alpha = test_alpha;
            }

            num_iterations += 1;
        }

        max_alpha as i32
    }
}

} // verus!
