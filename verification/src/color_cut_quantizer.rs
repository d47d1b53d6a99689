//! A color quantizer based on volume-driven box splitting.
//!
//! The color space is a cube with one dimension per RGB channel, at a
//! reduced width of 5 bits per channel. The cube is repeatedly divided at
//! the box of largest volume until the requested number of boxes is reached;
//! each final box yields one swatch, its population-weighted average color.

use vstd::prelude::*;

use crate::color::{spec_alpha, spec_argb, spec_blue, spec_green, spec_red, Color, ColorInt};
use crate::color_utils::{spec_hsl, ColorUtils, Hsl};
use crate::filter::{allowed_by_all, spec_allowed_by_all, Filter};
use crate::swatch::Swatch;
use crate::wsum::{
    lemma_range_pop_bounds, lemma_range_pop_push, lemma_range_wsum_bounds,
    lemma_range_wsum_congruence, lemma_range_wsum_permuted, lemma_range_wsum_split, range_pop,
    range_wsum, weight_one,
};

verus! {

/// The reduced width of each color channel, in bits.
pub const QUANTIZE_WORD_WIDTH: u32 = 5;

/// The number of reduced-color histogram buckets: `2^15`.
pub const HISTOGRAM_SIZE: usize = 32768;

/// Red component of a reduced color: its top five bits.
pub open spec fn spec_qred(c: int) -> int {
    c / 1024
}

/// Green component of a reduced color: its middle five bits.
pub open spec fn spec_qgreen(c: int) -> int {
    (c / 32) % 32
}

/// Blue component of a reduced color: its low five bits.
pub open spec fn spec_qblue(c: int) -> int {
    c % 32
}

/// The reduced color of a packed color: each 8-bit channel keeps its top
/// five bits, and the three reduced channels are packed together.
pub open spec fn spec_quantize_color(c: i32) -> int {
    (spec_red(c) / 8) * 1024 + (spec_green(c) / 8) * 32 + spec_blue(c) / 8
}

/// A five-bit channel expanded to eight bits by bit replication: the five
/// bits are shifted up and their top three bits fill the low bits.
pub open spec fn spec_expand5(v: int) -> int {
    8 * v + v / 4
}

/// The opaque packed color standing for a reduced color: each channel
/// expanded back to eight bits by bit replication.
pub open spec fn spec_approx888(q: int) -> i32 {
    spec_argb(
        255,
        spec_expand5(spec_qred(q)) as u8,
        spec_expand5(spec_qgreen(q)) as u8,
        spec_expand5(spec_qblue(q)) as u8,
    )
}

/// The hue-saturation-lightness form of the color standing for a reduced
/// color.
pub open spec fn spec_bucket_hsl(q: int) -> Hsl {
    spec_hsl(
        spec_red(spec_approx888(q)),
        spec_green(spec_approx888(q)),
        spec_blue(spec_approx888(q)),
    )
}

/// Whether every filter allows the color standing for a reduced color.
pub open spec fn spec_bucket_allowed<F: Filter>(filters: Seq<F>, q: int) -> bool {
    spec_allowed_by_all(filters, spec_approx888(q), spec_bucket_hsl(q))
}

/// The admissibility of a swatch under a list of filters, as a predicate on
/// swatches.
pub open spec fn spec_swatch_allowed<F: Filter>(filters: Seq<F>) -> spec_fn(Swatch) -> bool {
    |s: Swatch| spec_allowed_by_all(filters, s.rgb, s.hsl)
}

/// How many of the first `n` pixels reduce to the color `q`.
pub open spec fn count_quantized(pixels: Seq<i32>, q: int, n: int) -> int
    decreases n,
{
    if n <= 0 {
        0
    } else {
        count_quantized(pixels, q, n - 1) + if spec_quantize_color(pixels[n - 1]) == q {
            1int
        } else {
            0int
        }
    }
}

/// How many of the first `n` pixels are admissible: their reduced color's
/// representative passes every filter.
pub open spec fn count_admissible<F: Filter>(pixels: Seq<i32>, filters: Seq<F>, n: int) -> int
    decreases n,
{
    if n <= 0 {
        0
    } else {
        count_admissible(pixels, filters, n - 1) + if spec_bucket_allowed(
            filters,
            spec_quantize_color(pixels[n - 1]),
        ) {
            1int
        } else {
            0int
        }
    }
}

/// Total count, over the first `nq` buckets, of the first `np` pixels that
/// reduce into an admissible bucket.
pub open spec fn bucket_sum<F: Filter>(pixels: Seq<i32>, filters: Seq<F>, np: int, nq: int) -> int
    decreases nq,
{
    if nq <= 0 {
        0
    } else {
        bucket_sum(pixels, filters, np, nq - 1) + if spec_bucket_allowed(filters, nq - 1) {
            count_quantized(pixels, nq - 1, np)
        } else {
            0int
        }
    }
}

/// Every reduced color is a bucket index.
pub proof fn lemma_quantize_in_range(c: i32)
    ensures
        0 <= spec_quantize_color(c) < 32768,
{
}

/// Admitting one more pixel raises the bucket totals by one exactly when its
/// bucket is admissible and among the first `nq`.
proof fn lemma_bucket_sum_step<F: Filter>(pixels: Seq<i32>, filters: Seq<F>, np: int, nq: int)
    requires
        0 <= np < pixels.len(),
    ensures
        bucket_sum(pixels, filters, np + 1, nq) == bucket_sum(pixels, filters, np, nq) + if 0
            <= spec_quantize_color(pixels[np]) < nq && spec_bucket_allowed(
            filters,
            spec_quantize_color(pixels[np]),
        ) {
            1int
        } else {
            0int
        },
    decreases nq,
{
    if nq > 0 {
        lemma_bucket_sum_step(pixels, filters, np, nq - 1);
    }
}

/// With no pixels admitted, every bucket total is zero.
proof fn lemma_bucket_sum_zero<F: Filter>(pixels: Seq<i32>, filters: Seq<F>, nq: int)
    ensures
        bucket_sum(pixels, filters, 0, nq) == 0,
    decreases nq,
{
    if nq > 0 {
        lemma_bucket_sum_zero(pixels, filters, nq - 1);
    }
}

/// Over all buckets, the bucket totals of the first `np` pixels count the
/// admissible pixels among them.
pub proof fn lemma_bucket_sum_counts<F: Filter>(pixels: Seq<i32>, filters: Seq<F>, np: int)
    requires
        0 <= np <= pixels.len(),
    ensures
        bucket_sum(pixels, filters, np, 32768) == count_admissible(pixels, filters, np),
    decreases np,
{
    if np > 0 {
        lemma_bucket_sum_counts(pixels, filters, np - 1);
        lemma_bucket_sum_step(pixels, filters, np - 1, 32768);
        lemma_quantize_in_range(pixels[np - 1]);
    } else {
        lemma_bucket_sum_zero(pixels, filters, 32768);
    }
}

/// A bucket's count never exceeds the number of pixels counted.
pub proof fn lemma_count_quantized_bounds(pixels: Seq<i32>, q: int, n: int)
    ensures
        0 <= count_quantized(pixels, q, n) <= (if n >= 0 {
            n
        } else {
            0
        }),
    decreases n,
{
    if n > 0 {
        lemma_count_quantized_bounds(pixels, q, n - 1);
    }
}

/// The swatch standing directly for an admissible bucket: the bucket's
/// representative color carrying the bucket's histogram count over the whole
/// pixel list.
pub open spec fn spec_bucket_swatch(pixels: Seq<i32>, q: int) -> Swatch {
    Swatch {
        red: spec_red(spec_approx888(q)),
        green: spec_green(spec_approx888(q)),
        blue: spec_blue(spec_approx888(q)),
        rgb: spec_approx888(q),
        population: count_quantized(pixels, q, pixels.len() as int) as u32,
        hsl: spec_bucket_hsl(q),
    }
}

/// The admissible buckets among the first `nq`, in ascending order: the
/// reduced colors of at least one pixel whose representative passes every
/// filter.
pub open spec fn admissible_buckets<F: Filter>(
    pixels: Seq<i32>,
    filters: Seq<F>,
    nq: int,
) -> Seq<u32>
    decreases nq,
{
    if nq <= 0 {
        Seq::empty()
    } else {
        let rest = admissible_buckets(pixels, filters, nq - 1);
        if spec_bucket_allowed(filters, nq - 1) && count_quantized(
            pixels,
            nq - 1,
            pixels.len() as int,
        ) > 0 {
            rest.push((nq - 1) as u32)
        } else {
            rest
        }
    }
}

/// One swatch per admissible bucket among the first `nq`, in ascending
/// bucket order: the direct result of quantization when no splitting is
/// needed.
pub open spec fn direct_swatches<F: Filter>(
    pixels: Seq<i32>,
    filters: Seq<F>,
    nq: int,
) -> Seq<Swatch>
    decreases nq,
{
    if nq <= 0 {
        Seq::empty()
    } else {
        let rest = direct_swatches(pixels, filters, nq - 1);
        if spec_bucket_allowed(filters, nq - 1) && count_quantized(
            pixels,
            nq - 1,
            pixels.len() as int,
        ) > 0 {
            rest.push(spec_bucket_swatch(pixels, nq - 1))
        } else {
            rest
        }
    }
}

/// The direct swatches line up with the admissible buckets, position by
/// position.
proof fn lemma_direct_swatches_aligned<F: Filter>(pixels: Seq<i32>, filters: Seq<F>, nq: int)
    requires
        nq <= 0x1_0000_0000,
    ensures
        direct_swatches(pixels, filters, nq).len() == admissible_buckets(
            pixels,
            filters,
            nq,
        ).len(),
        forall|j: int|
            0 <= j < admissible_buckets(pixels, filters, nq).len() ==> #[trigger] direct_swatches(
                pixels,
                filters,
                nq,
            )[j] == spec_bucket_swatch(
                pixels,
                admissible_buckets(pixels, filters, nq)[j] as int,
            ),
    decreases nq,
{
    if nq > 0 {
        lemma_direct_swatches_aligned(pixels, filters, nq - 1);
        let buckets = admissible_buckets(pixels, filters, nq);
        let swatches = direct_swatches(pixels, filters, nq);
        assert forall|j: int| 0 <= j < buckets.len() implies #[trigger] swatches[j]
            == spec_bucket_swatch(pixels, buckets[j] as int) by {
            if spec_bucket_allowed(filters, nq - 1) && count_quantized(
                pixels,
                nq - 1,
                pixels.len() as int,
            ) > 0 {
                if j < buckets.len() - 1 {
                    assert(buckets[j] == admissible_buckets(pixels, filters, nq - 1)[j]);
                    assert(swatches[j] == direct_swatches(pixels, filters, nq - 1)[j]);
                } else {
                    assert(buckets[j] == (nq - 1) as u32);
                    assert(swatches[j] == spec_bucket_swatch(pixels, nq - 1));
                }
            }
        }
    }
}

/// Everything `ColorCutQuantizer::new` guarantees of its two swatch lists
/// for a given pixel list: the pre-filter list accounts for every admissible
/// pixel and, when no splitting is needed, is exactly one swatch per
/// admissible bucket; the final list is its admissible subsequence, bounded
/// by the requested count.
pub open spec fn spec_quantizer_post<F: Filter>(
    pixels: Seq<i32>,
    filters: Seq<F>,
    max_colors: int,
    average: Seq<Swatch>,
    quantized: Seq<Swatch>,
) -> bool {
    &&& sum_populations(average) == count_admissible(pixels, filters, pixels.len() as int)
    &&& quantized == average.filter(spec_swatch_allowed(filters))
    &&& quantized.len() <= max_colors
    &&& admissible_buckets(pixels, filters, 32768).len() <= max_colors ==> average
        == direct_swatches(pixels, filters, 32768)
    &&& forall|i: int|
        0 <= i < average.len() ==> (#[trigger] average[i]).wf() && average[i].population >= 1
}

/// The total population of a list of swatches.
pub open spec fn sum_populations(swatches: Seq<Swatch>) -> int
    decreases swatches.len(),
{
    if swatches.len() == 0 {
        0
    } else {
        sum_populations(swatches.drop_last()) + swatches.last().population
    }
}

/// Appending a swatch adds its population to the total.
pub proof fn lemma_sum_populations_push(swatches: Seq<Swatch>, s: Swatch)
    ensures
        sum_populations(swatches.push(s)) == sum_populations(swatches) + s.population,
{
    assert(swatches.push(s).drop_last() =~= swatches);
}

/// Expanding five bits to eight by bit replication stays within a byte and
/// agrees with the arithmetic form `8·v + v/4`.
proof fn lemma_expand5(v: u32)
    requires
        v < 32,
    ensures
        ((v << 3) | (v >> 2)) == spec_expand5(v as int),
        0 <= spec_expand5(v as int) <= 255,
        v == 31 ==> spec_expand5(v as int) == 255,
{
    assert(((v << 3) | (v >> 2)) == 8 * v + v / 4 && 8 * v + v / 4 <= 255) by (bit_vector)
        requires
            v < 32,
    ;
}

/// The channel used to order a box's colors before a split.
#[derive(PartialEq, Eq, Structural, Clone, Copy, Debug)]
pub enum Component {
    Red,
    Green,
    Blue,
}

/// The sort key of a reduced color for a component: the chosen channel is
/// moved to the most significant position, the remaining channels keep
/// their relative order.
pub open spec fn spec_component_key(component: Component, c: int) -> int {
    match component {
        Component::Red => c,
        Component::Green => spec_qgreen(c) * 1024 + spec_qred(c) * 32 + spec_qblue(c),
        Component::Blue => spec_qblue(c) * 1024 + spec_qgreen(c) * 32 + spec_qred(c),
    }
}

/// Compute the sort key of a reduced color for a component.
pub fn component_key(component: Component, c: u32) -> (k: u32)
    requires
        c < 32768,
    ensures
        k == spec_component_key(component, c as int),
        k < 32768,
{
    match component {
        Component::Red => c,
        Component::Green => ColorCutQuantizer::quantized_green(c) * 1024
            + ColorCutQuantizer::quantized_red(c) * 32 + ColorCutQuantizer::quantized_blue(c),
        Component::Blue => ColorCutQuantizer::quantized_blue(c) * 1024
            + ColorCutQuantizer::quantized_green(c) * 32 + ColorCutQuantizer::quantized_red(c),
    }
}

/// A color quantizer for an image: it reduces the image's full color
/// histogram to a bounded list of representative swatches.
pub struct ColorCutQuantizer {
    /// The distinct admissible reduced colors of the image.
    pub colors: Vec<u32>,
    /// Pixel count of each reduced color, admissible colors only.
    pub histogram: Vec<u32>,
    /// One swatch per final box, before the admissibility re-check.
    pub average_colors: Vec<Swatch>,
    /// The final swatches: the average colors that pass the filters again.
    pub quantized_colors: Vec<Swatch>,
}

impl ColorCutQuantizer {
    /// Red component of a reduced color.
    pub fn quantized_red(color: u32) -> (r: u32)
        requires
            color < 32768,
        ensures
            r == spec_qred(color as int),
            r < 32,
    {
        color / 1024
    }

    /// Green component of a reduced color.
    pub fn quantized_green(color: u32) -> (r: u32)
        requires
            color < 32768,
        ensures
            r == spec_qgreen(color as int),
            r < 32,
    {
        (color / 32) % 32
    }

    /// Blue component of a reduced color.
    pub fn quantized_blue(color: u32) -> (r: u32)
        requires
            color < 32768,
        ensures
            r == spec_qblue(color as int),
            r < 32,
    {
        color % 32
    }

    /// Change the bit width of a channel value: widening shifts the value up
    /// and fills the low bits by replicating its top bits, narrowing keeps
    /// the most significant bits.
    pub fn modify_word_width(value: u32, current_width: u32, target_width: u32) -> (r: u32)
        requires
            1 <= current_width <= 16,
            1 <= target_width <= 16,
            target_width > current_width ==> target_width - current_width <= current_width,
        ensures
            target_width > current_width ==> r == ((value << (target_width - current_width) as u32)
                | (value >> (2 * current_width - target_width) as u32)),
            target_width <= current_width ==> r == (value >> (current_width - target_width) as u32),
    {
        if target_width > current_width {
            let up = target_width - current_width;
            (value << up) | (value >> (current_width - up))
        } else {
            value >> (current_width - target_width)
        }
    }

    /// The reduced color of a packed color: each channel keeps its top five
    /// bits.
    pub fn quantize_from_rgb888(color: i32) -> (q: u32)
        ensures
            q == spec_quantize_color(color),
            q < 32768,
    {
        let c = ColorInt(color);
        let r = (c.red() / 8) as u32;
        let g = (c.green() / 8) as u32;
        let b = (c.blue() / 8) as u32;
        r * 1024 + g * 32 + b
    }

    /// The opaque packed color standing for three reduced channels, each
    /// expanded back to eight bits by bit replication.
    pub fn approximate_to_rgb888_channels(r: u32, g: u32, b: u32) -> (c: ColorInt)
        requires
            r < 32,
            g < 32,
            b < 32,
        ensures
            c.0 == spec_argb(
                255,
                spec_expand5(r as int) as u8,
                spec_expand5(g as int) as u8,
                spec_expand5(b as int) as u8,
            ),
            spec_alpha(c.0) == 255,
    {
        proof {
            lemma_expand5(r);
            lemma_expand5(g);
            lemma_expand5(b);
        }
        let r8 = Self::modify_word_width(r, QUANTIZE_WORD_WIDTH, 8);
        let g8 = Self::modify_word_width(g, QUANTIZE_WORD_WIDTH, 8);
        let b8 = Self::modify_word_width(b, QUANTIZE_WORD_WIDTH, 8);
        Color::rgb(r8 as u8, g8 as u8, b8 as u8)
    }

    /// The opaque packed color standing for a reduced color.
    pub fn approximate_to_rgb888(color: u32) -> (c: ColorInt)
        requires
            color < 32768,
        ensures
            c.0 == spec_approx888(color as int),
            spec_alpha(c.0) == 255,
    {
        Self::approximate_to_rgb888_channels(
            Self::quantized_red(color),
            Self::quantized_green(color),
            Self::quantized_blue(color),
        )
    }
}

/// A tightly fitting box around a contiguous range of the color array.
pub struct Vbox {
    pub lower_index: usize,
    pub upper_index: usize,
    pub population: u64,
    pub min_red: u32,
    pub max_red: u32,
    pub min_green: u32,
    pub max_green: u32,
    pub min_blue: u32,
    pub max_blue: u32,
}

impl Vbox {
    /// The channel bounds are ordered five-bit values.
    pub open spec fn bounds_wf(self) -> bool {
        &&& self.min_red <= self.max_red < 32
        &&& self.min_green <= self.max_green < 32
        &&& self.min_blue <= self.max_blue < 32
    }

    /// Well-formed over the color array and histogram the box indexes: the
    /// range is in bounds and holds admissible reduced colors, the recorded
    /// population is the range's histogram total, and each channel bound is
    /// attained, so the box fits its colors tightly.
    pub open spec fn wf(self, colors: Seq<u32>, hist: Seq<u32>) -> bool {
        &&& self.lower_index <= self.upper_index < colors.len()
        &&& self.bounds_wf()
        &&& forall|i: int|
            self.lower_index <= i <= self.upper_index ==> #[trigger] colors[i] < 32768
        &&& forall|i: int|
            self.lower_index <= i <= self.upper_index ==> hist[#[trigger] colors[i] as int] >= 1
        &&& self.population == range_pop(
            colors,
            hist,
            self.lower_index as int,
            self.upper_index + 1,
        )
        &&& forall|i: int|
            self.lower_index <= i <= self.upper_index ==> self.min_red <= #[trigger] spec_qred(
                colors[i] as int,
            ) <= self.max_red
        &&& forall|i: int|
            self.lower_index <= i <= self.upper_index ==> self.min_green
                <= #[trigger] spec_qgreen(colors[i] as int) <= self.max_green
        &&& forall|i: int|
            self.lower_index <= i <= self.upper_index ==> self.min_blue <= #[trigger] spec_qblue(
                colors[i] as int,
            ) <= self.max_blue
        &&& exists|i: int|
            self.lower_index <= i <= self.upper_index && #[trigger] spec_qred(colors[i] as int)
                == self.min_red
        &&& exists|i: int|
            self.lower_index <= i <= self.upper_index && #[trigger] spec_qred(colors[i] as int)
                == self.max_red
        &&& exists|i: int|
            self.lower_index <= i <= self.upper_index && #[trigger] spec_qgreen(colors[i] as int)
                == self.min_green
        &&& exists|i: int|
            self.lower_index <= i <= self.upper_index && #[trigger] spec_qgreen(colors[i] as int)
                == self.max_green
        &&& exists|i: int|
            self.lower_index <= i <= self.upper_index && #[trigger] spec_qblue(colors[i] as int)
                == self.min_blue
        &&& exists|i: int|
            self.lower_index <= i <= self.upper_index && #[trigger] spec_qblue(colors[i] as int)
                == self.max_blue
    }

    /// The box's volume: the product of the three channel extents.
    pub open spec fn spec_volume(self) -> int {
        (self.max_red - self.min_red + 1) * (self.max_green - self.min_green + 1) * (self.max_blue
            - self.min_blue + 1)
    }

    /// Build a box that tightly fits the colors in `[lower_index, upper_index]`,
    /// recomputing the channel bounds and the population from the histogram.
    pub fn new_fitted(
        lower_index: usize,
        upper_index: usize,
        colors: &Vec<u32>,
        hist: &Vec<u32>,
    ) -> (b: Vbox)
        requires
            lower_index <= upper_index < colors@.len(),
            colors@.len() <= 32768,
            hist@.len() == 32768,
            forall|i: int| lower_index <= i <= upper_index ==> #[trigger] colors@[i] < 32768,
            forall|i: int|
                lower_index <= i <= upper_index ==> hist@[#[trigger] colors@[i] as int] >= 1,
        ensures
            b.wf(colors@, hist@),
            b.lower_index == lower_index,
            b.upper_index == upper_index,
            b.population >= 1,
    {
        let c0 = colors[lower_index];
        let mut min_red = ColorCutQuantizer::quantized_red(c0);
        let mut max_red = min_red;
        let mut min_green = ColorCutQuantizer::quantized_green(c0);
        let mut max_green = min_green;
        let mut min_blue = ColorCutQuantizer::quantized_blue(c0);
        let mut max_blue = min_blue;
        let mut count: u64 = hist[c0 as usize] as u64;
        proof {
            assert(range_wsum(colors@, hist@, lower_index as int, lower_index + 1, weight_one())
                == hist@[colors@[lower_index as int] as int] * weight_one()(
                colors@[lower_index as int],
            ) + range_wsum(colors@, hist@, lower_index + 1, lower_index + 1, weight_one()));
            assert(weight_one()(c0) == 1);
        }
        let mut i = lower_index + 1;
        while i <= upper_index
            invariant
                lower_index < i <= upper_index + 1,
                upper_index < colors@.len() <= 32768,
                hist@.len() == 32768,
                forall|k: int| lower_index <= k <= upper_index ==> #[trigger] colors@[k] < 32768,
                forall|k: int|
                    lower_index <= k <= upper_index ==> hist@[#[trigger] colors@[k] as int] >= 1,
                count == range_pop(colors@, hist@, lower_index as int, i as int),
                1 <= count <= (i - lower_index) * 0xffff_ffffu64,
                min_red <= max_red < 32,
                min_green <= max_green < 32,
                min_blue <= max_blue < 32,
                forall|k: int|
                    lower_index <= k < i ==> min_red <= #[trigger] spec_qred(colors@[k] as int)
                        <= max_red,
                forall|k: int|
                    lower_index <= k < i ==> min_green <= #[trigger] spec_qgreen(colors@[k] as int)
                        <= max_green,
                forall|k: int|
                    lower_index <= k < i ==> min_blue <= #[trigger] spec_qblue(colors@[k] as int)
                        <= max_blue,
                exists|k: int|
                    lower_index <= k < i && #[trigger] spec_qred(colors@[k] as int) == min_red,
                exists|k: int|
                    lower_index <= k < i && #[trigger] spec_qred(colors@[k] as int) == max_red,
                exists|k: int|
                    lower_index <= k < i && #[trigger] spec_qgreen(colors@[k] as int) == min_green,
                exists|k: int|
                    lower_index <= k < i && #[trigger] spec_qgreen(colors@[k] as int) == max_green,
                exists|k: int|
                    lower_index <= k < i && #[trigger] spec_qblue(colors@[k] as int) == min_blue,
                exists|k: int|
                    lower_index <= k < i && #[trigger] spec_qblue(colors@[k] as int) == max_blue,
            decreases upper_index + 1 - i,
        {
            let c = colors[i];
            let h = hist[c as usize];
            proof {
                lemma_range_wsum_split(
                    colors@,
                    hist@,
                    lower_index as int,
                    i as int,
                    i + 1,
                    weight_one(),
                );
                assert(range_wsum(colors@, hist@, i as int, i + 1, weight_one()) == hist@[
                    colors@[i as int] as int] * weight_one()(colors@[i as int]) + range_wsum(
                    colors@,
                    hist@,
                    i + 1,
                    i + 1,
                    weight_one(),
                ));
                assert(weight_one()(c) == 1);
            }
            count = count + h as u64;
            let r = ColorCutQuantizer::quantized_red(c);
            let g = ColorCutQuantizer::quantized_green(c);
            let bl = ColorCutQuantizer::quantized_blue(c);
            if r > max_red {
                max_red = r;
            }
            if r < min_red {
                min_red = r;
            }
            if g > max_green {
                max_green = g;
            }
            if g < min_green {
                min_green = g;
            }
            if bl > max_blue {
                max_blue = bl;
            }
            if bl < min_blue {
                min_blue = bl;
            }
            i = i + 1;
        }
        Vbox {
            lower_index,
            upper_index,
            population: count,
            min_red,
            max_red,
            min_green,
            max_green,
            min_blue,
            max_blue,
        }
    }

    /// The box's volume: the product of the three channel extents at the
    /// reduced width. This, not population, orders the splitting queue.
    pub fn get_volume(&self) -> (v: u32)
        requires
            self.bounds_wf(),
        ensures
            v == self.spec_volume(),
            1 <= v <= 32768,
    {
        let r = self.max_red - self.min_red + 1;
        let g = self.max_green - self.min_green + 1;
        let b = self.max_blue - self.min_blue + 1;
        proof {
            assert(1 <= r * g * b <= 32768 && r * g <= 1024) by (nonlinear_arith)
                requires
                    1 <= r <= 32,
                    1 <= g <= 32,
                    1 <= b <= 32,
            ;
        }
        r * g * b
    }

    /// How many distinct reduced colors the box covers.
    pub fn get_color_count(&self) -> (n: usize)
        requires
            self.lower_index <= self.upper_index < usize::MAX,
        ensures
            n == self.upper_index - self.lower_index + 1,
    {
        1 + self.upper_index - self.lower_index
    }

    /// Whether the box covers more than one distinct color, and so can be
    /// split.
    pub fn can_split(&self) -> (r: bool)
        ensures
            r == (self.lower_index < self.upper_index),
    {
        self.lower_index < self.upper_index
    }

    /// The channel along which the box is longest, ties favoring red, then
    /// green.
    pub open spec fn spec_longest_dimension(self) -> Component {
        let red_length = self.max_red - self.min_red;
        let green_length = self.max_green - self.min_green;
        let blue_length = self.max_blue - self.min_blue;
        if red_length >= green_length && red_length >= blue_length {
            Component::Red
        } else if green_length >= blue_length {
            Component::Green
        } else {
            Component::Blue
        }
    }

    /// Return the channel along which the box is longest.
    fn get_longest_color_dimension(&self) -> (c: Component)
        requires
            self.bounds_wf(),
        ensures
            c == self.spec_longest_dimension(),
    {
        let red_length = self.max_red - self.min_red;
        let green_length = self.max_green - self.min_green;
        let blue_length = self.max_blue - self.min_blue;
        if red_length >= green_length && red_length >= blue_length {
            Component::Red
        } else if green_length >= blue_length {
            Component::Green
        } else {
            Component::Blue
        }
    }

    /// The average color of the box: the population-weighted mean of each
    /// channel at the reduced width, rounded to nearest, expanded back to
    /// eight bits by bit replication, packed opaque.
    pub open spec fn spec_average_rgb(self, colors: Seq<u32>, hist: Seq<u32>) -> i32 {
        let lo = self.lower_index as int;
        let hi = self.upper_index + 1;
        let pop = range_pop(colors, hist, lo, hi);
        spec_argb(
            255,
            spec_expand5(spec_mean_round(range_wsum(colors, hist, lo, hi, weight_qred()), pop)) as u8,
            spec_expand5(
                spec_mean_round(range_wsum(colors, hist, lo, hi, weight_qgreen()), pop),
            ) as u8,
            spec_expand5(spec_mean_round(range_wsum(colors, hist, lo, hi, weight_qblue()), pop)) as u8,
        )
    }

    /// Find where to split the box: order its colors along its longest
    /// channel, then walk them until the accumulated population first
    /// reaches half the box's population, never stopping at the box's last
    /// color. Only the colors inside the box's range are rearranged, and
    /// only by permutation; afterwards they are sorted by their key for the
    /// box's longest channel.
    #[verifier::rlimit(50)]
    fn find_split_point(&self, colors: &mut Vec<u32>, hist: &Vec<u32>) -> (sp: usize)
        requires
            self.wf(old(colors)@, hist@),
            self.lower_index < self.upper_index,
            old(colors)@.len() <= 32768,
            hist@.len() == 32768,
        ensures
            final(colors)@.len() == old(colors)@.len(),
            forall|i: int|
                (0 <= i < self.lower_index || self.upper_index < i < old(colors)@.len())
                    ==> final(colors)@[i] == old(colors)@[i],
            final(colors)@.to_multiset() == old(colors)@.to_multiset(),
            self.wf(final(colors)@, hist@),
            self.lower_index <= sp < self.upper_index,
            forall|a: int, b: int|
                self.lower_index <= a < b <= self.upper_index ==> spec_component_key(
                    self.spec_longest_dimension(),
                    #[trigger] final(colors)@[a] as int,
                ) <= spec_component_key(
                    self.spec_longest_dimension(),
                    #[trigger] final(colors)@[b] as int,
                ),
            forall|j: int|
                self.lower_index < j <= sp ==> #[trigger] range_pop(
                    final(colors)@,
                    hist@,
                    self.lower_index as int,
                    j,
                ) < self.population as int / 2,
            sp == self.upper_index - 1 || range_pop(
                final(colors)@,
                hist@,
                self.lower_index as int,
                sp + 1,
            ) >= self.population as int / 2,
    {
        let component = self.get_longest_color_dimension();
        sort_range(colors, self.lower_index, self.upper_index + 1, component);
        proof {
            lemma_vbox_wf_permuted(*self, old(colors)@, colors@, hist@);
        }
        let midpoint = self.population / 2;
        let mut count: u64 = 0;
        let mut i = self.lower_index;
        while i <= self.upper_index
            invariant
                self.lower_index <= i <= self.upper_index + 1,
                self.lower_index < self.upper_index,
                hist@.len() == 32768,
                self.wf(colors@, hist@),
                colors@.len() <= 32768,
                colors@.len() == old(colors)@.len(),
                forall|k: int|
                    (0 <= k < self.lower_index || self.upper_index < k < old(colors)@.len())
                        ==> colors@[k] == old(colors)@[k],
                colors@.to_multiset() == old(colors)@.to_multiset(),
                component == self.spec_longest_dimension(),
                forall|a: int, b: int|
                    self.lower_index <= a < b <= self.upper_index ==> spec_component_key(
                        component,
                        #[trigger] colors@[a] as int,
                    ) <= spec_component_key(component, #[trigger] colors@[b] as int),
                midpoint == self.population as int / 2,
                count == range_pop(colors@, hist@, self.lower_index as int, i as int),
                forall|j: int|
                    self.lower_index < j <= i ==> #[trigger] range_pop(
                        colors@,
                        hist@,
                        self.lower_index as int,
                        j,
                    ) < self.population as int / 2,
            decreases self.upper_index + 1 - i,
        {
            proof {
                lemma_range_pop_bounds(colors@, hist@, self.lower_index as int, i as int);
                crate::wsum::lemma_range_pop_extend(
                    colors@,
                    hist@,
                    self.lower_index as int,
                    i as int,
                );
            }
            let c = colors[i];
            count = count + hist[c as usize] as u64;
            proof {
                assert(count as int == range_pop(
                    colors@,
                    hist@,
                    self.lower_index as int,
                    i + 1,
                ));
            }
            if count >= midpoint {
                if i < self.upper_index {
                    return i;
                } else {
                    return self.upper_index - 1;
                }
            }
            i = i + 1;
        }
        proof {
            // The walk always stops: by the box's last color the accumulated
            // population is the whole population, which reaches its own half.
            assert(range_pop(colors@, hist@, self.lower_index as int, self.upper_index + 1)
                == self.population);
            assert(false);
        }
        self.lower_index
    }

    /// Split the box at its median along its longest channel: the box's
    /// colors are sorted by that channel's key, this box keeps
    /// `[lower, split]` where the split falls at the first color whose
    /// accumulated population reaches half the box's population (clamped so
    /// the second half is never empty), the returned box covers
    /// `[split + 1, upper]`, and the two populations add up to the original.
    /// Only the colors inside the original range are permuted.
    pub fn split_box(&mut self, colors: &mut Vec<u32>, hist: &Vec<u32>) -> (nb: Vbox)
        requires
            old(self).wf(old(colors)@, hist@),
            old(self).lower_index < old(self).upper_index,
            old(colors)@.len() <= 32768,
            hist@.len() == 32768,
        ensures
            final(colors)@.len() == old(colors)@.len(),
            forall|i: int|
                (0 <= i < old(self).lower_index || old(self).upper_index < i < old(
                    colors,
                )@.len()) ==> final(colors)@[i] == old(colors)@[i],
            final(colors)@.to_multiset() == old(colors)@.to_multiset(),
            final(self).wf(final(colors)@, hist@),
            nb.wf(final(colors)@, hist@),
            final(self).lower_index == old(self).lower_index,
            old(self).lower_index <= final(self).upper_index < old(self).upper_index,
            nb.lower_index == final(self).upper_index + 1,
            nb.upper_index == old(self).upper_index,
            final(self).population + nb.population == old(self).population,
            final(self).population >= 1,
            nb.population >= 1,
            forall|a: int, b: int|
                old(self).lower_index <= a < b <= old(self).upper_index ==> spec_component_key(
                    old(self).spec_longest_dimension(),
                    #[trigger] final(colors)@[a] as int,
                ) <= spec_component_key(
                    old(self).spec_longest_dimension(),
                    #[trigger] final(colors)@[b] as int,
                ),
            forall|j: int|
                old(self).lower_index < j <= final(self).upper_index ==> #[trigger] range_pop(
                    final(colors)@,
                    hist@,
                    old(self).lower_index as int,
                    j,
                ) < old(self).population as int / 2,
            final(self).upper_index == old(self).upper_index - 1 || range_pop(
                final(colors)@,
                hist@,
                old(self).lower_index as int,
                final(self).upper_index + 1,
            ) >= old(self).population as int / 2,
    {
        let lower = self.lower_index;
        let upper = self.upper_index;
        let sp = self.find_split_point(colors, hist);
        let nb = Vbox::new_fitted(sp + 1, upper, colors, hist);
        let refit = Vbox::new_fitted(lower, sp, colors, hist);
        proof {
            lemma_range_wsum_permuted(
                old(colors)@,
                colors@,
                hist@,
                lower as int,
                upper + 1,
                weight_one(),
            );
            lemma_range_wsum_split(colors@, hist@, lower as int, sp + 1, upper + 1, weight_one());
        }
        *self = refit;
        nb
    }

    /// One swatch standing for the box: its average color, carrying the
    /// box's whole population.
    pub fn get_average_color(&self, colors: &Vec<u32>, hist: &Vec<u32>) -> (s: Swatch)
        requires
            self.wf(colors@, hist@),
            colors@.len() <= 32768,
            hist@.len() == 32768,
            self.population <= 0xffff_ffff,
        ensures
            s.wf(),
            s.population == self.population,
            s.population >= 1,
            s.rgb == self.spec_average_rgb(colors@, hist@),
    {
        let lo = self.lower_index;
        let hi = self.upper_index;
        let mut red_sum: u64 = 0;
        let mut green_sum: u64 = 0;
        let mut blue_sum: u64 = 0;
        let mut total: u64 = 0;
        let mut i = lo;
        while i <= hi
            invariant
                lo <= i <= hi + 1,
                lo <= hi,
                self.lower_index == lo,
                self.upper_index == hi,
                self.wf(colors@, hist@),
                colors@.len() <= 32768,
                hist@.len() == 32768,
                total == range_pop(colors@, hist@, lo as int, i as int),
                red_sum == range_wsum(colors@, hist@, lo as int, i as int, weight_qred()),
                green_sum == range_wsum(colors@, hist@, lo as int, i as int, weight_qgreen()),
                blue_sum == range_wsum(colors@, hist@, lo as int, i as int, weight_qblue()),
                total <= (i - lo) * 0xffff_ffffu64,
                red_sum <= (i - lo) * 133143986145u64,
                green_sum <= (i - lo) * 133143986145u64,
                blue_sum <= (i - lo) * 133143986145u64,
            decreases hi + 1 - i,
        {
            let c = colors[i];
            let h = hist[c as usize];
            let r = ColorCutQuantizer::quantized_red(c);
            let g = ColorCutQuantizer::quantized_green(c);
            let bl = ColorCutQuantizer::quantized_blue(c);
            proof {
                lemma_range_wsum_split(colors@, hist@, lo as int, i as int, i + 1, weight_one());
                lemma_range_wsum_split(colors@, hist@, lo as int, i as int, i + 1, weight_qred());
                lemma_range_wsum_split(colors@, hist@, lo as int, i as int, i + 1, weight_qgreen());
                lemma_range_wsum_split(colors@, hist@, lo as int, i as int, i + 1, weight_qblue());
                assert(range_wsum(colors@, hist@, i as int, i + 1, weight_one()) == hist@[
                    colors@[i as int] as int] * weight_one()(colors@[i as int]) + range_wsum(
                    colors@,
                    hist@,
                    i + 1,
                    i + 1,
                    weight_one(),
                ));
                assert(range_wsum(colors@, hist@, i as int, i + 1, weight_qred()) == hist@[
                    colors@[i as int] as int] * weight_qred()(colors@[i as int]) + range_wsum(
                    colors@,
                    hist@,
                    i + 1,
                    i + 1,
                    weight_qred(),
                ));
                assert(range_wsum(colors@, hist@, i as int, i + 1, weight_qgreen()) == hist@[
                    colors@[i as int] as int] * weight_qgreen()(colors@[i as int]) + range_wsum(
                    colors@,
                    hist@,
                    i + 1,
                    i + 1,
                    weight_qgreen(),
                ));
                assert(range_wsum(colors@, hist@, i as int, i + 1, weight_qblue()) == hist@[
                    colors@[i as int] as int] * weight_qblue()(colors@[i as int]) + range_wsum(
                    colors@,
                    hist@,
                    i + 1,
                    i + 1,
                    weight_qblue(),
                ));
                assert(weight_one()(c) == 1);
                assert(weight_qred()(c) == spec_qred(c as int));
                assert(weight_qgreen()(c) == spec_qgreen(c as int));
                assert(weight_qblue()(c) == spec_qblue(c as int));
                assert(h * r <= 133143986145 && h * g <= 133143986145 && h * bl <= 133143986145
                    && h * r >= 0 && h * g >= 0 && h * bl >= 0) by (nonlinear_arith)
                    requires
                        h <= 0xffff_ffffu64,
                        r < 32,
                        g < 32,
                        bl < 32,
                        h >= 0,
                ;
            }
            total = total + h as u64;
            red_sum = red_sum + (h as u64) * (r as u64);
            green_sum = green_sum + (h as u64) * (g as u64);
            blue_sum = blue_sum + (h as u64) * (bl as u64);
            i = i + 1;
        }
        proof {
            let loi = lo as int;
            let hii = hi + 1;
            assert forall|k: int| loi <= k < hii implies 0 <= #[trigger] weight_qred()(
                colors@[k],
            ) <= 31 && 0 <= weight_qgreen()(colors@[k]) <= 31 && 0 <= weight_qblue()(
                colors@[k],
            ) <= 31 by {
                assert(colors@[k] < 32768);
            }
            lemma_range_wsum_bounds(colors@, hist@, loi, hii, weight_qred(), 31);
            lemma_range_wsum_bounds(colors@, hist@, loi, hii, weight_qgreen(), 31);
            lemma_range_wsum_bounds(colors@, hist@, loi, hii, weight_qblue(), 31);
            lemma_range_pop_bounds(colors@, hist@, loi + 1, hii);
            assert(range_wsum(colors@, hist@, loi, hii, weight_one()) == hist@[colors@[loi] as int]
                * weight_one()(colors@[loi]) + range_wsum(colors@, hist@, loi + 1, hii, weight_one()));
            assert(weight_one()(colors@[loi]) == 1);
            assert(total >= 1);
            assert(((2 * red_sum + total) as int / (2 * total) as int) < 32 && ((2 * green_sum
                + total) as int / (2 * total) as int) < 32 && ((2 * blue_sum + total) as int / (2
                * total) as int) < 32) by (nonlinear_arith)
                requires
                    red_sum <= 31 * total,
                    green_sum <= 31 * total,
                    blue_sum <= 31 * total,
                    total >= 1,
            ;
        }
        let red_mean = (2 * red_sum + total) / (2 * total);
        let green_mean = (2 * green_sum + total) / (2 * total);
        let blue_mean = (2 * blue_sum + total) / (2 * total);
        let rgb = ColorCutQuantizer::approximate_to_rgb888_channels(
            red_mean as u32,
            green_mean as u32,
            blue_mean as u32,
        );
        Swatch::new(rgb.0, total as u32)
    }
}

impl ColorCutQuantizer {
    /// Well-formed: the histogram has one bucket per reduced color and every
    /// held swatch is internally consistent.
    pub open spec fn wf(self) -> bool {
        &&& self.histogram@.len() == 32768
        &&& forall|i: int| 0 <= i < self.colors@.len() ==> #[trigger] self.colors@[i] < 32768
        &&& forall|i: int|
            0 <= i < self.average_colors@.len() ==> (#[trigger] self.average_colors@[i]).wf()
        &&& forall|i: int|
            0 <= i < self.quantized_colors@.len() ==> (#[trigger] self.quantized_colors@[i]).wf()
    }

    /// The first index of a box of maximal volume: volume, not population,
    /// orders the splitting queue, and ties keep the earliest box.
    fn largest_box_index(queue: &Vec<Vbox>, colors: &Vec<u32>, hist: &Vec<u32>) -> (best: usize)
        requires
            queue@.len() >= 1,
            boxes_wf(queue@, colors@, hist@),
        ensures
            best < queue@.len(),
            forall|j: int|
                0 <= j < queue@.len() ==> (#[trigger] queue@[j]).spec_volume() <= queue@[
                    best as int].spec_volume(),
            forall|j: int|
                0 <= j < best ==> (#[trigger] queue@[j]).spec_volume() < queue@[
                    best as int].spec_volume(),
    {
        let mut best: usize = 0;
        proof {
            assert(queue@[0].wf(colors@, hist@));
        }
        let mut best_vol = queue[0].get_volume();
        let mut k: usize = 1;
        while k < queue.len()
            invariant
                1 <= queue@.len(),
                best < k <= queue@.len(),
                boxes_wf(queue@, colors@, hist@),
                best_vol == queue@[best as int].spec_volume(),
                forall|j: int|
                    0 <= j < k ==> (#[trigger] queue@[j]).spec_volume() <= queue@[
                        best as int].spec_volume(),
                forall|j: int|
                    0 <= j < best ==> (#[trigger] queue@[j]).spec_volume() < queue@[
                        best as int].spec_volume(),
            decreases queue@.len() - k,
        {
            proof {
                assert(queue@[k as int].wf(colors@, hist@));
            }
            let v = queue[k].get_volume();
            if v > best_vol {
                best = k;
                best_vol = v;
            }
            k = k + 1;
        }
        best
    }

    /// Pop the first largest-volume box and split it, until the queue holds
    /// `max_size` boxes or the largest-volume box covers a single color and
    /// so cannot be split. The total population over the queue never
    /// changes.
    fn split_boxes(queue: &mut Vec<Vbox>, max_size: usize, colors: &mut Vec<u32>, hist: &Vec<u32>)
        requires
            1 <= old(queue)@.len() <= max_size,
            old(colors)@.len() <= 32768,
            hist@.len() == 32768,
            forall|i: int| 0 <= i < old(colors)@.len() ==> #[trigger] old(colors)@[i] < 32768,
            boxes_wf(old(queue)@, old(colors)@, hist@),
            boxes_disjoint(old(queue)@),
        ensures
            1 <= final(queue)@.len() <= max_size,
            final(colors)@.len() == old(colors)@.len(),
            forall|i: int| 0 <= i < final(colors)@.len() ==> #[trigger] final(colors)@[i] < 32768,
            boxes_wf(final(queue)@, final(colors)@, hist@),
            boxes_disjoint(final(queue)@),
            sum_box_pops(final(queue)@) == sum_box_pops(old(queue)@),
            final(queue)@.len() == max_size || (exists|i: int|
                0 <= i < final(queue)@.len() && !((#[trigger] final(queue)@[i]).lower_index
                    < final(queue)@[i].upper_index) && (forall|j: int|
                    0 <= j < final(queue)@.len() ==> (#[trigger] final(queue)@[j]).spec_volume()
                        <= final(queue)@[i].spec_volume())),
    {
        while queue.len() < max_size
            invariant
                1 <= queue@.len() <= max_size,
                colors@.len() == old(colors)@.len(),
                colors@.len() <= 32768,
                hist@.len() == 32768,
                forall|i: int| 0 <= i < colors@.len() ==> #[trigger] colors@[i] < 32768,
                boxes_wf(queue@, colors@, hist@),
                boxes_disjoint(queue@),
                sum_box_pops(queue@) == sum_box_pops(old(queue)@),
            ensures
                queue@.len() == max_size || (exists|i: int|
                    0 <= i < queue@.len() && !((#[trigger] queue@[i]).lower_index < queue@[
                        i].upper_index) && (forall|j: int|
                        0 <= j < queue@.len() ==> (#[trigger] queue@[j]).spec_volume() <= queue@[
                            i].spec_volume())),
            decreases max_size - queue@.len(),
        {
            let best = Self::largest_box_index(queue, colors, hist);
            if !queue[best].can_split() {
                proof {
                    assert((best as int) < queue@.len() && !(queue@[best as int].lower_index
                        < queue@[best as int].upper_index) && (forall|j: int|
                        0 <= j < queue@.len() ==> (#[trigger] queue@[j]).spec_volume() <= queue@[
                            best as int].spec_volume()));
                }
                break ;
            }
            proof {
                assert(queue@[best as int].wf(colors@, hist@));
            }
            let ghost q0 = queue@;
            let ghost colors0 = colors@;
            let mut vbox = queue.remove(best);
            proof {
                lemma_sum_box_pops_remove(q0, best as int);
                assert forall|i: int| 0 <= i < queue@.len() implies #[trigger] queue@[i].wf(
                    colors@,
                    hist@,
                ) by {
                    if i < best {
                        assert(queue@[i] == q0[i]);
                    } else {
                        assert(queue@[i] == q0[i + 1]);
                    }
                }
                assert forall|i: int, j: int|
                    0 <= i < queue@.len() && 0 <= j < queue@.len() && i != j implies (
                #[trigger] queue@[i].upper_index < #[trigger] queue@[j].lower_index
                    || queue@[j].upper_index < queue@[i].lower_index) by {
                    let i0 = if i < best {
                        i
                    } else {
                        i + 1
                    };
                    let j0 = if j < best {
                        j
                    } else {
                        j + 1
                    };
                    assert(queue@[i] == q0[i0] && queue@[j] == q0[j0]);
                }
                assert forall|i: int| 0 <= i < queue@.len() implies (#[trigger] queue@[i].upper_index
                    < vbox.lower_index || vbox.upper_index < queue@[i].lower_index) by {
                    let i0 = if i < best {
                        i
                    } else {
                        i + 1
                    };
                    assert(queue@[i] == q0[i0] && vbox == q0[best as int]);
                }
            }
            let ghost rq = queue@;
            let ghost vbox0 = vbox;
            let nb = vbox.split_box(colors, hist);
            proof {
                assert forall|i: int| 0 <= i < rq.len() implies #[trigger] rq[i].wf(
                    colors@,
                    hist@,
                ) by {
                    assert(rq[i].wf(colors0, hist@));
                    assert(rq[i].upper_index < vbox0.lower_index || vbox0.upper_index < rq[
                        i].lower_index);
                    assert forall|m: int| rq[i].lower_index <= m <= rq[i].upper_index implies
                        colors@[m] == colors0[m] by {
                        assert(m <= rq[i].upper_index < colors0.len());
                    }
                    lemma_vbox_wf_congruence(rq[i], colors0, colors@, hist@);
                }
                assert forall|m: int| 0 <= m < colors@.len() implies #[trigger] colors@[m]
                    < 32768 by {
                    if m < vbox0.lower_index || vbox0.upper_index < m {
                        assert(colors@[m] == colors0[m]);
                    } else if m <= vbox.upper_index {
                        assert(vbox.wf(colors@, hist@));
                    } else {
                        assert(nb.wf(colors@, hist@));
                        assert(nb.lower_index <= m <= nb.upper_index);
                    }
                }
            }
            queue.push(nb);
            queue.push(vbox);
            proof {
                lemma_sum_box_pops_push(rq, nb);
                lemma_sum_box_pops_push(rq.push(nb), vbox);
                assert(queue@ == rq.push(nb).push(vbox));
                assert forall|i: int| 0 <= i < queue@.len() implies #[trigger] queue@[i].wf(
                    colors@,
                    hist@,
                ) by {
                    if i < rq.len() {
                        assert(queue@[i] == rq[i]);
                    }
                }
                let n = rq.len() as int;
                assert forall|i: int, j: int|
                    0 <= i < queue@.len() && 0 <= j < queue@.len() && i != j implies (
                #[trigger] queue@[i].upper_index < #[trigger] queue@[j].lower_index
                    || queue@[j].upper_index < queue@[i].lower_index) by {
                    if i < n && j < n {
                        assert(queue@[i] == rq[i] && queue@[j] == rq[j]);
                    } else if i < n {
                        assert(queue@[i] == rq[i]);
                        assert(rq[i].upper_index < vbox0.lower_index || vbox0.upper_index < rq[
                            i].lower_index);
                    } else if j < n {
                        assert(queue@[j] == rq[j]);
                        assert(rq[j].upper_index < vbox0.lower_index || vbox0.upper_index < rq[
                            j].lower_index);
                    }
                }
            }
        }
    }

    /// One swatch per box: each box's average color, carrying the box's
    /// whole population, so the total population over the swatches equals
    /// the total over the boxes.
    fn generate_average_colors(queue: &Vec<Vbox>, colors: &Vec<u32>, hist: &Vec<u32>) -> (out: Vec<
        Swatch,
    >)
        requires
            colors@.len() <= 32768,
            hist@.len() == 32768,
            boxes_wf(queue@, colors@, hist@),
            sum_box_pops(queue@) <= 0xffff_ffff,
        ensures
            out@.len() == queue@.len(),
            sum_populations(out@) == sum_box_pops(queue@),
            forall|i: int|
                0 <= i < out@.len() ==> (#[trigger] out@[i]).wf() && out@[i].population == queue@[
                    i].population && out@[i].rgb == queue@[i].spec_average_rgb(colors@, hist@)
                    && out@[i].population >= 1,
    {
        let mut out: Vec<Swatch> = Vec::new();
        let mut i: usize = 0;
        while i < queue.len()
            invariant
                i <= queue@.len(),
                colors@.len() <= 32768,
                hist@.len() == 32768,
                boxes_wf(queue@, colors@, hist@),
                sum_box_pops(queue@) <= 0xffff_ffff,
                out@.len() == i,
                sum_populations(out@) == sum_box_pops(queue@.subrange(0, i as int)),
                forall|j: int|
                    0 <= j < i ==> (#[trigger] out@[j]).wf() && out@[j].population == queue@[
                        j].population && out@[j].rgb == queue@[j].spec_average_rgb(colors@, hist@)
                        && out@[j].population >= 1,
            decreases queue@.len() - i,
        {
            proof {
                lemma_box_pop_le_sum(queue@, i as int);
                assert(queue@[i as int].wf(colors@, hist@));
            }
            let s = queue[i].get_average_color(colors, hist);
            let ghost out0 = out@;
            out.push(s);
            proof {
                assert(out@ == out0.push(s));
                lemma_sum_populations_push(out0, s);
                assert(queue@.subrange(0, i + 1) =~= queue@.subrange(0, i as int).push(
                    queue@[i as int],
                ));
                lemma_sum_box_pops_push(queue@.subrange(0, i as int), queue@[i as int]);
            }
            i = i + 1;
        }
        proof {
            assert(queue@.subrange(0, queue@.len() as int) =~= queue@);
        }
        out
    }

    /// Keep only the swatches whose color passes every filter. The averaged
    /// color of a box can fall outside the admissible set even when the
    /// box's own colors were admissible, so the filters are applied again.
    fn retain_allowed<F: Filter>(filters: &Vec<F>, swatches: &Vec<Swatch>) -> (out: Vec<Swatch>)
        requires
            forall|i: int| 0 <= i < swatches@.len() ==> (#[trigger] swatches@[i]).wf(),
        ensures
            out@ == swatches@.filter(spec_swatch_allowed(filters@)),
            out@.len() <= swatches@.len(),
            forall|i: int|
                0 <= i < out@.len() ==> (#[trigger] out@[i]).wf() && spec_allowed_by_all(
                    filters@,
                    out@[i].rgb,
                    out@[i].hsl,
                ) && swatches@.contains(out@[i]),
    {
        let mut out: Vec<Swatch> = Vec::new();
        let mut i: usize = 0;
        while i < swatches.len()
            invariant
                i <= swatches@.len(),
                out@.len() <= i,
                forall|j: int| 0 <= j < swatches@.len() ==> (#[trigger] swatches@[j]).wf(),
                out@ == swatches@.subrange(0, i as int).filter(spec_swatch_allowed(filters@)),
                forall|j: int|
                    0 <= j < out@.len() ==> (#[trigger] out@[j]).wf() && spec_allowed_by_all(
                        filters@,
                        out@[j].rgb,
                        out@[j].hsl,
                    ) && swatches@.contains(out@[j]),
            decreases swatches@.len() - i,
        {
            let s = swatches[i];
            let keep = allowed_by_all(filters, s.get_rgb(), s.get_hsl());
            proof {
                reveal(Seq::filter);
                assert(swatches@.subrange(0, i + 1).drop_last() =~= swatches@.subrange(
                    0,
                    i as int,
                ));
                assert(swatches@.subrange(0, i + 1).last() == swatches@[i as int]);
                assert(spec_swatch_allowed(filters@)(swatches@[i as int]) == spec_allowed_by_all(
                    filters@,
                    swatches@[i as int].rgb,
                    swatches@[i as int].hsl,
                ));
            }
            if keep {
                out.push(s);
            }
            i = i + 1;
        }
        proof {
            assert(swatches@.subrange(0, swatches@.len() as int) =~= swatches@);
        }
        out
    }
}

impl ColorCutQuantizer {
    /// Quantize an image's pixels to at most `max_colors` swatches.
    ///
    /// The 8-bit pixels are reduced to five bits per channel and counted
    /// into a histogram; buckets whose representative color a filter rejects
    /// are dropped. When no more than `max_colors` distinct colors survive,
    /// each becomes one swatch directly; otherwise boxes are split by volume
    /// until `max_colors` boxes remain, and each box's average color becomes
    /// a swatch. Before the final admissibility re-check, the swatch
    /// populations add up to exactly the number of admissible pixels, and
    /// after it at most `max_colors` swatches remain.
    #[verifier::rlimit(50)]
    pub fn new<F: Filter>(pixels: Vec<i32>, max_colors: i32, filters: &Vec<F>) -> (ccq:
        ColorCutQuantizer)
        requires
            max_colors >= 1,
            pixels@.len() <= 0xffff_ffff,
        ensures
            ccq.wf(),
            sum_populations(ccq.average_colors@) == count_admissible(
                pixels@,
                filters@,
                pixels@.len() as int,
            ),
            ccq.quantized_colors@.len() <= max_colors,
            ccq.quantized_colors@ == ccq.average_colors@.filter(spec_swatch_allowed(filters@)),
            forall|i: int|
                0 <= i < ccq.quantized_colors@.len() ==> spec_allowed_by_all(
                    filters@,
                    (#[trigger] ccq.quantized_colors@[i]).rgb,
                    ccq.quantized_colors@[i].hsl,
                ) && ccq.average_colors@.contains(ccq.quantized_colors@[i]),
            forall|i: int|
                0 <= i < ccq.average_colors@.len() ==> (#[trigger] ccq.average_colors@[i]).wf()
                    && ccq.average_colors@[i].population >= 1,
            admissible_buckets(pixels@, filters@, 32768).len() <= max_colors
                ==> ccq.average_colors@ == direct_swatches(pixels@, filters@, 32768),
            spec_quantizer_post(
                pixels@,
                filters@,
                max_colors as int,
                ccq.average_colors@,
                ccq.quantized_colors@,
            ),
    {
        let ghost pix = pixels@;
        let mut histogram: Vec<u32> = vec![0u32; HISTOGRAM_SIZE];

        let mut i: usize = 0;
        while i < pixels.len()
            invariant
                i <= pix.len(),
                pixels@ == pix,
                pix.len() <= 0xffff_ffff,
                histogram@.len() == 32768,
                forall|q: int| 0 <= q < 32768 ==> histogram@[q] == count_quantized(pix, q, i as int),
                forall|q: int| 0 <= q < 32768 ==> histogram@[q] <= i,
            decreases pix.len() - i,
        {
            let q = Self::quantize_from_rgb888(pixels[i]);
            let h = histogram[q as usize];
            let ghost hist0 = histogram@;
            histogram.set(q as usize, h + 1);
            proof {
                assert forall|qq: int| 0 <= qq < 32768 implies histogram@[qq] == count_quantized(
                    pix,
                    qq,
                    i + 1,
                ) by {
                    assert(count_quantized(pix, qq, i + 1) == count_quantized(pix, qq, i as int)
                        + if spec_quantize_color(pix[i as int]) == qq {
                        1int
                    } else {
                        0int
                    });
                }
            }
            i = i + 1;
        }

        let ghost hist_counts = histogram@;
        let mut q: usize = 0;
        while q < HISTOGRAM_SIZE
            invariant
                q <= 32768,
                histogram@.len() == 32768,
                forall|b: int|
                    0 <= b < q ==> histogram@[b] == (if spec_bucket_allowed(filters@, b) {
                        hist_counts[b]
                    } else {
                        0u32
                    }),
                forall|b: int| q <= b < 32768 ==> histogram@[b] == hist_counts[b],
            decreases 32768 - q,
        {
            if histogram[q] > 0 {
                let rgb = Self::approximate_to_rgb888(q as u32);
                let hsl = ColorUtils::color_to_hsl(rgb);
                if !allowed_by_all(filters, rgb.0, hsl) {
                    histogram.set(q, 0);
                }
            }
            q = q + 1;
        }

        let mut colors: Vec<u32> = Vec::new();
        let mut q: usize = 0;
        while q < HISTOGRAM_SIZE
            invariant
                q <= 32768,
                histogram@.len() == 32768,
                forall|b: int|
                    0 <= b < 32768 ==> histogram@[b] == (if spec_bucket_allowed(filters@, b) {
                        hist_counts[b]
                    } else {
                        0u32
                    }),
                colors@.len() <= q,
                forall|a: int, b: int| 0 <= a < b < colors@.len() ==> colors@[a] < colors@[b],
                forall|a: int| 0 <= a < colors@.len() ==> #[trigger] colors@[a] < q,
                forall|a: int|
                    0 <= a < colors@.len() ==> histogram@[#[trigger] colors@[a] as int] >= 1,
                forall|b: int|
                    0 <= b < 32768 ==> hist_counts[b] == count_quantized(
                        pix,
                        b,
                        pix.len() as int,
                    ),
                colors@ == admissible_buckets(pix, filters@, q as int),
                range_pop(colors@, histogram@, 0, colors@.len() as int) == bucket_sum(
                    pix,
                    filters@,
                    pix.len() as int,
                    q as int,
                ),
            decreases 32768 - q,
        {
            proof {
                assert(bucket_sum(pix, filters@, pix.len() as int, q + 1) == bucket_sum(
                    pix,
                    filters@,
                    pix.len() as int,
                    q as int,
                ) + if spec_bucket_allowed(filters@, q as int) {
                    count_quantized(pix, q as int, pix.len() as int)
                } else {
                    0int
                });
                assert(admissible_buckets(pix, filters@, q as int + 1) == (if spec_bucket_allowed(
                    filters@,
                    q as int,
                ) && count_quantized(pix, q as int, pix.len() as int) > 0 {
                    admissible_buckets(pix, filters@, q as int).push(q as u32)
                } else {
                    admissible_buckets(pix, filters@, q as int)
                }));
            }
            if histogram[q] > 0 {
                let ghost colors0 = colors@;
                colors.push(q as u32);
                proof {
                    lemma_range_pop_push(colors0, histogram@, q as u32);
                    assert(spec_bucket_allowed(filters@, q as int));
                    assert(histogram@[q as int] == count_quantized(pix, q as int, pix.len() as int));
                }
            } else {
                proof {
                    if spec_bucket_allowed(filters@, q as int) {
                        assert(count_quantized(pix, q as int, pix.len() as int) == hist_counts[
                            q as int]);
                        assert(hist_counts[q as int] == 0);
                    }
                }
            }
            q = q + 1;
        }
        proof {
            lemma_bucket_sum_counts(pix, filters@, pix.len() as int);
        }
        let ghost total_admissible = count_admissible(pix, filters@, pix.len() as int);

        let distinct = colors.len();
        let max_c = max_colors as usize;
        if distinct <= max_c {
            let mut average: Vec<Swatch> = Vec::new();
            let mut j: usize = 0;
            while j < distinct
                invariant
                    j <= distinct,
                    distinct == colors@.len() <= 32768,
                    histogram@.len() == 32768,
                    forall|a: int| 0 <= a < colors@.len() ==> #[trigger] colors@[a] < 32768,
                    forall|a: int|
                        0 <= a < colors@.len() ==> histogram@[#[trigger] colors@[a] as int] >= 1,
                    forall|b: int|
                        0 <= b < 32768 ==> histogram@[b] == (if spec_bucket_allowed(filters@, b) {
                            hist_counts[b]
                        } else {
                            0u32
                        }),
                    average@.len() == j,
                    pix.len() <= 0xffff_ffff,
                    forall|b: int|
                        0 <= b < 32768 ==> hist_counts[b] == count_quantized(
                            pix,
                            b,
                            pix.len() as int,
                        ),
                    colors@ == admissible_buckets(pix, filters@, 32768),
                    sum_populations(average@) == range_pop(colors@, histogram@, 0, j as int),
                    average@ == direct_swatches(pix, filters@, 32768).subrange(0, j as int),
                    forall|k: int|
                        0 <= k < j ==> (#[trigger] average@[k]).wf() && average@[k].population >= 1
                            && spec_allowed_by_all(filters@, average@[k].rgb, average@[k].hsl),
                decreases distinct - j,
            {
                let c = colors[j];
                let rgb = Self::approximate_to_rgb888(c);
                let pop = histogram[c as usize];
                let s = Swatch::new(rgb.0, pop);
                let ghost average0 = average@;
                average.push(s);
                proof {
                    lemma_sum_populations_push(average0, s);
                    lemma_range_wsum_split(colors@, histogram@, 0, j as int, j + 1, weight_one());
                    assert(range_wsum(colors@, histogram@, j as int, j + 1, weight_one())
                        == histogram@[colors@[j as int] as int] * weight_one()(colors@[j as int])
                        + range_wsum(colors@, histogram@, j + 1, j + 1, weight_one()));
                    assert(weight_one()(c) == 1);
                    assert(spec_bucket_allowed(filters@, c as int));
                    lemma_direct_swatches_aligned(pix, filters@, 32768);
                    lemma_count_quantized_bounds(pix, c as int, pix.len() as int);
                    assert(s == spec_bucket_swatch(pix, c as int));
                    assert(average@ =~= direct_swatches(pix, filters@, 32768).subrange(0, j + 1));
                }
                j = j + 1;
            }
            let quantized = Self::retain_allowed(filters, &average);
            proof {
                assert(sum_populations(average@) == total_admissible);
                lemma_direct_swatches_aligned(pix, filters@, 32768);
                assert(average@ =~= direct_swatches(pix, filters@, 32768));
            }
            ColorCutQuantizer {
                colors,
                histogram,
                average_colors: average,
                quantized_colors: quantized,
            }
        } else {
            let mut queue: Vec<Vbox> = Vec::new();
            let first = Vbox::new_fitted(0, distinct - 1, &colors, &histogram);
            queue.push(first);
            proof {
                assert(queue@ =~= Seq::<Vbox>::empty().push(first));
                lemma_sum_box_pops_push(Seq::<Vbox>::empty(), first);
                assert(sum_box_pops(queue@) == first.population);
                assert(first.population == total_admissible);
            }
            Self::split_boxes(&mut queue, max_c, &mut colors, &histogram);
            proof {
                lemma_count_admissible_bounds(pix, filters@, pix.len() as int);
                lemma_direct_swatches_aligned(pix, filters@, 32768);
            }
            let average = Self::generate_average_colors(&queue, &colors, &histogram);
            let quantized = Self::retain_allowed(filters, &average);
            ColorCutQuantizer {
                colors,
                histogram,
                average_colors: average,
                quantized_colors: quantized,
            }
        }
    }

    /// The final swatches of the quantization, after the admissibility
    /// re-check.
    pub fn get_quantized_colors(&self) -> (r: &Vec<Swatch>)
        ensures
            r == &self.quantized_colors,
    {
        &self.quantized_colors
    }

    /// One swatch per final box, before the admissibility re-check: their
    /// populations add up to the number of admissible pixels.
    pub fn get_average_colors(&self) -> (r: &Vec<Swatch>)
        ensures
            r == &self.average_colors,
    {
        &self.average_colors
    }
}

/// There are never more admissible pixels than pixels.
pub proof fn lemma_count_admissible_bounds<F: Filter>(pixels: Seq<i32>, filters: Seq<F>, n: int)
    ensures
        0 <= count_admissible(pixels, filters, n),
        count_admissible(pixels, filters, n) <= (if n >= 0 { n } else { 0 }),
    decreases n,
{
    if n > 0 {
        lemma_count_admissible_bounds(pixels, filters, n - 1);
    }
}


/// Swap two distinct elements of the array; the multiset of elements is
/// unchanged.
fn swap_elements(colors: &mut Vec<u32>, a: usize, b: usize)
    requires
        a < old(colors)@.len(),
        b < old(colors)@.len(),
        a != b,
    ensures
        final(colors)@ == old(colors)@.update(a as int, old(colors)@[b as int]).update(
            b as int,
            old(colors)@[a as int],
        ),
        final(colors)@.len() == old(colors)@.len(),
        final(colors)@.to_multiset() == old(colors)@.to_multiset(),
{
    let va = colors[a];
    let vb = colors[b];
    colors.set(a, vb);
    colors.set(b, va);
    proof {
        broadcast use vstd::seq_lib::group_to_multiset_ensures;
        broadcast use vstd::multiset::group_multiset_axioms;

        let s0 = old(colors)@;
        let s1 = s0.update(a as int, s0[b as int]);
        let s2 = s1.update(b as int, s0[a as int]);
        assert(colors@ == s2);
        assert(s1.to_multiset() == s0.to_multiset().insert(s0[b as int]).remove(s0[a as int]));
        assert(s2.to_multiset() == s1.to_multiset().insert(s0[a as int]).remove(s1[b as int]));
        assert(s1[b as int] == s0[b as int]);
        assert(s0.contains(s0[a as int]));
        assert(s0.to_multiset().count(s0[a as int]) > 0);
        assert(s0.contains(s0[b as int]));
        assert(s0.to_multiset().count(s0[b as int]) > 0);
        assert(s2.to_multiset() =~= s0.to_multiset());
    }
}

/// The per-color weights of the three channel sums.
pub open spec fn weight_qred() -> spec_fn(u32) -> int {
    |c: u32| spec_qred(c as int)
}

/// The per-color weight of the green channel sum.
pub open spec fn weight_qgreen() -> spec_fn(u32) -> int {
    |c: u32| spec_qgreen(c as int)
}

/// The per-color weight of the blue channel sum.
pub open spec fn weight_qblue() -> spec_fn(u32) -> int {
    |c: u32| spec_qblue(c as int)
}

/// A population-weighted mean, rounded to nearest with halves rounding up:
/// `(2·sum + pop) / (2·pop)`.
pub open spec fn spec_mean_round(sum: int, pop: int) -> int {
    (2 * sum + pop) / (2 * pop)
}

/// The total population of a list of boxes.
pub open spec fn sum_box_pops(q: Seq<Vbox>) -> int
    decreases q.len(),
{
    if q.len() == 0 {
        0
    } else {
        q[0].population + sum_box_pops(q.drop_first())
    }
}

/// Every box of the list is well-formed over the color array and histogram.
pub open spec fn boxes_wf(q: Seq<Vbox>, colors: Seq<u32>, hist: Seq<u32>) -> bool {
    forall|i: int| 0 <= i < q.len() ==> #[trigger] q[i].wf(colors, hist)
}

/// No two boxes of the list cover a common index of the color array.
pub open spec fn boxes_disjoint(q: Seq<Vbox>) -> bool {
    forall|i: int, j: int|
        0 <= i < q.len() && 0 <= j < q.len() && i != j ==> (#[trigger] q[i].upper_index
            < #[trigger] q[j].lower_index || q[j].upper_index < q[i].lower_index)
}

/// A total of box populations is non-negative.
proof fn lemma_sum_box_pops_nonneg(q: Seq<Vbox>)
    ensures
        sum_box_pops(q) >= 0,
    decreases q.len(),
{
    if q.len() > 0 {
        lemma_sum_box_pops_nonneg(q.drop_first());
    }
}

/// Each box's population is at most the total of the list it is in.
proof fn lemma_box_pop_le_sum(q: Seq<Vbox>, i: int)
    requires
        0 <= i < q.len(),
    ensures
        q[i].population <= sum_box_pops(q),
    decreases i,
{
    lemma_sum_box_pops_nonneg(q.drop_first());
    if i > 0 {
        lemma_box_pop_le_sum(q.drop_first(), i - 1);
    }
}

/// Appending a box adds its population to the total.
proof fn lemma_sum_box_pops_push(q: Seq<Vbox>, b: Vbox)
    ensures
        sum_box_pops(q.push(b)) == sum_box_pops(q) + b.population,
    decreases q.len(),
{
    if q.len() == 0 {
        assert(q.push(b)[0] == b);
        assert(q.push(b).drop_first() =~= Seq::<Vbox>::empty());
        assert(sum_box_pops(Seq::<Vbox>::empty()) == 0);
    } else {
        assert(q.push(b)[0] == q[0]);
        assert(q.push(b).drop_first() =~= q.drop_first().push(b));
        lemma_sum_box_pops_push(q.drop_first(), b);
    }
}

/// Taking any one box out of a list leaves the total of the rest.
proof fn lemma_sum_box_pops_remove(q: Seq<Vbox>, j: int)
    requires
        0 <= j < q.len(),
    ensures
        sum_box_pops(q) == q[j].population + sum_box_pops(q.remove(j)),
    decreases j,
{
    if j == 0 {
        assert(q.remove(0) =~= q.drop_first());
    } else {
        lemma_sum_box_pops_remove(q.drop_first(), j - 1);
        assert(q.remove(j).drop_first() =~= q.drop_first().remove(j - 1));
        assert(q.remove(j)[0] == q[0]);
    }
}

/// A box stays well-formed when the color array changes only outside the
/// box's range.
proof fn lemma_vbox_wf_congruence(b: Vbox, c1: Seq<u32>, c2: Seq<u32>, hist: Seq<u32>)
    requires
        b.wf(c1, hist),
        c2.len() == c1.len(),
        forall|i: int| b.lower_index <= i <= b.upper_index ==> c2[i] == c1[i],
    ensures
        b.wf(c2, hist),
{
    let lo = b.lower_index as int;
    let hi = b.upper_index + 1;
    lemma_range_wsum_congruence(c2, c1, hist, lo, hi, weight_one());
    assert forall|i: int| lo <= i <= b.upper_index implies #[trigger] c2[i] < 32768 && hist[
        c2[i] as int] >= 1 && b.min_red <= spec_qred(c2[i] as int) <= b.max_red && b.min_green
        <= spec_qgreen(c2[i] as int) <= b.max_green && b.min_blue <= spec_qblue(c2[i] as int)
        <= b.max_blue by {
        assert(c1[i] < 32768);
        assert(b.min_red <= spec_qred(c1[i] as int) <= b.max_red);
        assert(b.min_green <= spec_qgreen(c1[i] as int) <= b.max_green);
        assert(b.min_blue <= spec_qblue(c1[i] as int) <= b.max_blue);
    }
    let kr = choose|k: int| lo <= k <= b.upper_index && #[trigger] spec_qred(c1[k] as int)
        == b.min_red;
    assert(spec_qred(c2[kr] as int) == b.min_red);
    let kr2 = choose|k: int| lo <= k <= b.upper_index && #[trigger] spec_qred(c1[k] as int)
        == b.max_red;
    assert(spec_qred(c2[kr2] as int) == b.max_red);
    let kg = choose|k: int| lo <= k <= b.upper_index && #[trigger] spec_qgreen(c1[k] as int)
        == b.min_green;
    assert(spec_qgreen(c2[kg] as int) == b.min_green);
    let kg2 = choose|k: int| lo <= k <= b.upper_index && #[trigger] spec_qgreen(c1[k] as int)
        == b.max_green;
    assert(spec_qgreen(c2[kg2] as int) == b.max_green);
    let kb = choose|k: int| lo <= k <= b.upper_index && #[trigger] spec_qblue(c1[k] as int)
        == b.min_blue;
    assert(spec_qblue(c2[kb] as int) == b.min_blue);
    let kb2 = choose|k: int| lo <= k <= b.upper_index && #[trigger] spec_qblue(c1[k] as int)
        == b.max_blue;
    assert(spec_qblue(c2[kb2] as int) == b.max_blue);
}

/// A box stays well-formed when the colors inside its range are permuted and
/// those outside are unchanged.
proof fn lemma_vbox_wf_permuted(b: Vbox, c1: Seq<u32>, c2: Seq<u32>, hist: Seq<u32>)
    requires
        b.wf(c1, hist),
        c2.len() == c1.len(),
        c1.to_multiset() == c2.to_multiset(),
        forall|i: int| 0 <= i < b.lower_index ==> c2[i] == c1[i],
        forall|i: int| b.upper_index < i < c1.len() ==> c2[i] == c1[i],
    ensures
        b.wf(c2, hist),
{
    broadcast use vstd::seq_lib::group_to_multiset_ensures;

    let lo = b.lower_index as int;
    let hi = b.upper_index + 1;
    crate::wsum::lemma_permuted_subrange_multiset(c1, c2, lo, hi);
    let s1 = c1.subrange(lo, hi);
    let s2 = c2.subrange(lo, hi);
    lemma_range_wsum_permuted(c1, c2, hist, lo, hi, weight_one());
    assert forall|i: int| lo <= i <= b.upper_index implies #[trigger] c2[i] < 32768 && hist[
        c2[i] as int] >= 1 && b.min_red <= spec_qred(c2[i] as int) <= b.max_red && b.min_green
        <= spec_qgreen(c2[i] as int) <= b.max_green && b.min_blue <= spec_qblue(c2[i] as int)
        <= b.max_blue by {
        assert(s2[i - lo] == c2[i]);
        assert(s2.contains(c2[i]));
        assert(s2.to_multiset().count(c2[i]) > 0);
        assert(s1.to_multiset().count(c2[i]) > 0);
        assert(s1.contains(c2[i]));
        let j = choose|j: int| 0 <= j < s1.len() && s1[j] == c2[i];
        assert(c1[j + lo] == c2[i]);
    }
    assert forall|v: u32| s1.contains(v) implies s2.contains(v) by {
        assert(s1.to_multiset().count(v) > 0);
        assert(s2.to_multiset().count(v) > 0);
    }
    let kr = choose|k: int| lo <= k <= b.upper_index && #[trigger] spec_qred(c1[k] as int)
        == b.min_red;
    assert(s1[kr - lo] == c1[kr]);
    assert(s1.contains(c1[kr]));
    assert(s2.contains(c1[kr]));
    let ir = choose|j: int| 0 <= j < s2.len() && s2[j] == c1[kr];
    assert(c2[ir + lo] == c1[kr]);
    assert(spec_qred(c2[ir + lo] as int) == b.min_red);
    let kr2 = choose|k: int| lo <= k <= b.upper_index && #[trigger] spec_qred(c1[k] as int)
        == b.max_red;
    assert(s1[kr2 - lo] == c1[kr2]);
    assert(s2.contains(c1[kr2]));
    let ir2 = choose|j: int| 0 <= j < s2.len() && s2[j] == c1[kr2];
    assert(spec_qred(c2[ir2 + lo] as int) == b.max_red);
    let kg = choose|k: int| lo <= k <= b.upper_index && #[trigger] spec_qgreen(c1[k] as int)
        == b.min_green;
    assert(s1[kg - lo] == c1[kg]);
    assert(s2.contains(c1[kg]));
    let ig = choose|j: int| 0 <= j < s2.len() && s2[j] == c1[kg];
    assert(spec_qgreen(c2[ig + lo] as int) == b.min_green);
    let kg2 = choose|k: int| lo <= k <= b.upper_index && #[trigger] spec_qgreen(c1[k] as int)
        == b.max_green;
    assert(s1[kg2 - lo] == c1[kg2]);
    assert(s2.contains(c1[kg2]));
    let ig2 = choose|j: int| 0 <= j < s2.len() && s2[j] == c1[kg2];
    assert(spec_qgreen(c2[ig2 + lo] as int) == b.max_green);
    let kb = choose|k: int| lo <= k <= b.upper_index && #[trigger] spec_qblue(c1[k] as int)
        == b.min_blue;
    assert(s1[kb - lo] == c1[kb]);
    assert(s2.contains(c1[kb]));
    let ib = choose|j: int| 0 <= j < s2.len() && s2[j] == c1[kb];
    assert(spec_qblue(c2[ib + lo] as int) == b.min_blue);
    let kb2 = choose|k: int| lo <= k <= b.upper_index && #[trigger] spec_qblue(c1[k] as int)
        == b.max_blue;
    assert(s1[kb2 - lo] == c1[kb2]);
    assert(s2.contains(c1[kb2]));
    let ib2 = choose|j: int| 0 <= j < s2.len() && s2[j] == c1[kb2];
    assert(spec_qblue(c2[ib2 + lo] as int) == b.max_blue);
}

/// Sort the colors in `[lo, hi)` by their key for the given component, in
/// place, touching nothing outside the range and keeping the multiset of
/// colors.
fn sort_range(colors: &mut Vec<u32>, lo: usize, hi: usize, component: Component)
    requires
        lo <= hi <= old(colors)@.len(),
        forall|i: int| lo <= i < hi ==> #[trigger] old(colors)@[i] < 32768,
    ensures
        final(colors)@.len() == old(colors)@.len(),
        forall|i: int|
            (0 <= i < lo || hi <= i < old(colors)@.len()) ==> final(colors)@[i] == old(
                colors,
            )@[i],
        final(colors)@.to_multiset() == old(colors)@.to_multiset(),
        forall|i: int| lo <= i < hi ==> #[trigger] final(colors)@[i] < 32768,
        forall|a: int, b: int|
            lo <= a < b < hi ==> spec_component_key(component, #[trigger] final(colors)@[a] as int)
                <= spec_component_key(component, #[trigger] final(colors)@[b] as int),
{
    if hi <= lo {
        return ;
    }
    let mut i = lo + 1;
    while i < hi
        invariant
            lo < i,
            i <= hi || i == lo + 1,
            hi <= colors@.len(),
            colors@.len() == old(colors)@.len(),
            forall|k: int|
                (0 <= k < lo || hi <= k < old(colors)@.len()) ==> colors@[k] == old(colors)@[k],
            colors@.to_multiset() == old(colors)@.to_multiset(),
            forall|k: int| lo <= k < hi ==> #[trigger] colors@[k] < 32768,
            forall|a: int, b: int|
                lo <= a < b < i && b < hi ==> spec_component_key(
                    component,
                    #[trigger] colors@[a] as int,
                ) <= spec_component_key(component, #[trigger] colors@[b] as int),
        decreases hi - i,
    {
        let mut j = i;
        while j > lo && component_key(component, colors[j - 1]) > component_key(
            component,
            colors[j],
        )
            invariant
                lo <= j <= i < hi <= colors@.len(),
                colors@.len() == old(colors)@.len(),
                forall|k: int|
                    (0 <= k < lo || hi <= k < old(colors)@.len()) ==> colors@[k] == old(
                        colors,
                    )@[k],
                colors@.to_multiset() == old(colors)@.to_multiset(),
                forall|k: int| lo <= k < hi ==> #[trigger] colors@[k] < 32768,
                forall|a: int, b: int|
                    lo <= a < b < j ==> spec_component_key(component, #[trigger] colors@[a] as int)
                        <= spec_component_key(component, #[trigger] colors@[b] as int),
                forall|a: int, b: int|
                    j <= a < b <= i ==> spec_component_key(component, #[trigger] colors@[a] as int)
                        <= spec_component_key(component, #[trigger] colors@[b] as int),
                forall|a: int, b: int|
                    lo <= a < j && j < b <= i ==> spec_component_key(
                        component,
                        #[trigger] colors@[a] as int,
                    ) <= spec_component_key(component, #[trigger] colors@[b] as int),
            decreases j,
        {
            swap_elements(colors, j - 1, j);
            j = j - 1;
        }
        i = i + 1;
    }
}

} // verus!
