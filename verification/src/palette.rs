//! Palettes: swatch selection against scoring profiles.
//!
//! Each target scores every eligible swatch and takes the best; an exclusive
//! target then claims its swatch's color so that later targets cannot take
//! it again. Scores are deterministic fixed-point values: each of the three
//! weighted terms is evaluated exactly and then rounded down to millionths.

use vstd::prelude::*;

use crate::color::spec_argb;
use crate::color_cut_quantizer::{spec_quantizer_post, ColorCutQuantizer};
use crate::filter::DefaultFilter;
use crate::image::Image;
use crate::rect::Rect;
use crate::sparse_boolean_array::SparseBooleanArray;
use crate::swatch::Swatch;
use crate::target::{Target, TargetKind};

verus! {

/// The default maximum number of swatches: 16.
pub const DEFAULT_CALCULATE_NUMBER_COLORS: i32 = 16;

/// The default resize area in pixels: 112 by 112.
pub const DEFAULT_RESIZE_IMAGE_AREA: i32 = 12544;

/// One scoring term in millionths, rounded down:
/// `10^6 · (w / wsum) · (cnum / cden)`, and 0 when either denominator is 0.
pub open spec fn spec_term(w: int, wsum: int, cnum: int, cden: int) -> int {
    if wsum == 0 || cden == 0 {
        0
    } else {
        1_000_000 * w * cnum / (wsum * cden)
    }
}

/// The closeness numerator over denominator `vd · m` of a value `vn / vd`
/// to the preferred value `tv / 1000`, measured against the range bound
/// `m / 1000`: `1 - |v - t| / (m / 1000)`, clamped below at 0.
pub open spec fn spec_closeness_num(vn: int, vd: int, tv: int, m: int) -> int {
    let dn = if vn * 1000 >= tv * vd {
        vn * 1000 - tv * vd
    } else {
        tv * vd - vn * 1000
    };
    if dn >= vd * m {
        0
    } else {
        vd * m - dn
    }
}

/// The saturation term of a swatch's score for a target, in millionths.
pub open spec fn spec_sat_term(s: Swatch, t: Target) -> int {
    spec_term(
        t.saturation_weight as int,
        t.spec_weight_sum(),
        spec_closeness_num(
            s.hsl.saturation.num as int,
            s.hsl.saturation.den as int,
            t.saturation_targets.target as int,
            t.saturation_targets.max as int,
        ),
        s.hsl.saturation.den * t.saturation_targets.max,
    )
}

/// The lightness term of a swatch's score for a target, in millionths.
pub open spec fn spec_light_term(s: Swatch, t: Target) -> int {
    spec_term(
        t.lightness_weight as int,
        t.spec_weight_sum(),
        spec_closeness_num(
            s.hsl.lightness.num as int,
            s.hsl.lightness.den as int,
            t.lightness_targets.target as int,
            t.lightness_targets.max as int,
        ),
        s.hsl.lightness.den * t.lightness_targets.max,
    )
}

/// The population term of a swatch's score for a target, in millionths.
pub open spec fn spec_pop_term(s: Swatch, t: Target, max_pop: int) -> int {
    spec_term(t.population_weight as int, t.spec_weight_sum(), s.population as int, max_pop)
}

/// A swatch's score for a target: the saturation, lightness and population
/// terms added, each in millionths.
pub open spec fn spec_score(s: Swatch, t: Target, max_pop: int) -> int {
    spec_sat_term(s, t) + spec_light_term(s, t) + spec_pop_term(s, t, max_pop)
}

/// The largest population among the swatches.
pub open spec fn spec_max_population(swatches: Seq<Swatch>) -> int
    decreases swatches.len(),
{
    if swatches.len() == 0 {
        0
    } else {
        let rest = spec_max_population(swatches.drop_last());
        if swatches.last().population >= rest {
            swatches.last().population as int
        } else {
            rest
        }
    }
}

/// The index of the best swatch for a target among the first `n` swatches,
/// or -1 when none is eligible: a swatch is eligible unless the target is
/// exclusive and the swatch's color is already claimed; among eligible
/// swatches the one of strictly greatest score wins, earliest first on ties.
pub open spec fn spec_best_in_prefix(
    swatches: Seq<Swatch>,
    t: Target,
    used: Set<int>,
    max_pop: int,
    n: int,
) -> int
    decreases n,
{
    if n <= 0 {
        -1
    } else {
        let prev = spec_best_in_prefix(swatches, t, used, max_pop, n - 1);
        let eligible = !t.is_exclusive || !used.contains(swatches[n - 1].rgb as int);
        if !eligible {
            prev
        } else if prev == -1 {
            n - 1
        } else if spec_score(swatches[n - 1], t, max_pop) > spec_score(
            swatches[prev],
            t,
            max_pop,
        ) {
            n - 1
        } else {
            prev
        }
    }
}

/// The set of colors claimed by the first `k` targets, in order: each
/// exclusive target that selects a swatch claims that swatch's color.
pub open spec fn spec_used_after(
    swatches: Seq<Swatch>,
    targets: Seq<Target>,
    max_pop: int,
    k: int,
) -> Set<int>
    decreases k,
{
    if k <= 0 {
        Set::empty()
    } else {
        let u = spec_used_after(swatches, targets, max_pop, k - 1);
        let b = spec_best_in_prefix(swatches, targets[k - 1], u, max_pop, swatches.len() as int);
        if targets[k - 1].is_exclusive && b != -1 {
            u.insert(swatches[b].rgb as int)
        } else {
            u
        }
    }
}

/// The swatch selected for target `k`, honoring the claims of the targets
/// before it.
pub open spec fn spec_selection(
    swatches: Seq<Swatch>,
    targets: Seq<Target>,
    max_pop: int,
    k: int,
) -> Option<Swatch> {
    let b = spec_best_in_prefix(
        swatches,
        targets[k],
        spec_used_after(swatches, targets, max_pop, k),
        max_pop,
        swatches.len() as int,
    );
    if b == -1 {
        None
    } else {
        Some(swatches[b])
    }
}

/// A selected index is an eligible index of the swatch list.
proof fn lemma_best_in_prefix_eligible(
    swatches: Seq<Swatch>,
    t: Target,
    used: Set<int>,
    max_pop: int,
    n: int,
)
    requires
        spec_best_in_prefix(swatches, t, used, max_pop, n) != -1,
    ensures
        0 <= spec_best_in_prefix(swatches, t, used, max_pop, n) < n,
        t.is_exclusive ==> !used.contains(
            swatches[spec_best_in_prefix(swatches, t, used, max_pop, n)].rgb as int,
        ),
    decreases n,
{
    if n > 0 {
        if spec_best_in_prefix(swatches, t, used, max_pop, n - 1) != -1 {
            lemma_best_in_prefix_eligible(swatches, t, used, max_pop, n - 1);
        }
    }
}

/// Claimed colors only accumulate as targets are processed in order.
proof fn lemma_used_monotonic(
    swatches: Seq<Swatch>,
    targets: Seq<Target>,
    max_pop: int,
    k1: int,
    k2: int,
)
    requires
        0 <= k1 <= k2,
    ensures
        spec_used_after(swatches, targets, max_pop, k1).subset_of(
            spec_used_after(swatches, targets, max_pop, k2),
        ),
    decreases k2 - k1,
{
    if k1 < k2 {
        lemma_used_monotonic(swatches, targets, max_pop, k1, k2 - 1);
    }
}

/// Exclusivity: when two distinct targets are both exclusive and both select
/// a swatch, the two selected swatches have different colors — the earlier
/// target claims its color and the later target cannot take it again.
pub proof fn lemma_selection_exclusive(
    swatches: Seq<Swatch>,
    targets: Seq<Target>,
    max_pop: int,
    i: int,
    j: int,
)
    requires
        0 <= i < j < targets.len(),
        targets[i].is_exclusive,
        targets[j].is_exclusive,
        spec_selection(swatches, targets, max_pop, i) is Some,
        spec_selection(swatches, targets, max_pop, j) is Some,
    ensures
        spec_selection(swatches, targets, max_pop, i)->Some_0.rgb != spec_selection(
            swatches,
            targets,
            max_pop,
            j,
        )->Some_0.rgb,
{
    let ui = spec_used_after(swatches, targets, max_pop, i);
    let uj = spec_used_after(swatches, targets, max_pop, j);
    let n = swatches.len() as int;
    let bi = spec_best_in_prefix(swatches, targets[i], ui, max_pop, n);
    let bj = spec_best_in_prefix(swatches, targets[j], uj, max_pop, n);
    lemma_best_in_prefix_eligible(swatches, targets[i], ui, max_pop, n);
    lemma_best_in_prefix_eligible(swatches, targets[j], uj, max_pop, n);
    assert(spec_used_after(swatches, targets, max_pop, i + 1).contains(swatches[bi].rgb as int));
    lemma_used_monotonic(swatches, targets, max_pop, i + 1, j);
    assert(uj.contains(swatches[bi].rgb as int));
    assert(!uj.contains(swatches[bj].rgb as int));
}

/// Compute one scoring term in millionths, rounded down.
fn score_term(w: u32, wsum: u32, cnum: u64, cden: u64) -> (r: u64)
    requires
        w <= wsum,
        cnum <= cden,
    ensures
        r as int == spec_term(w as int, wsum as int, cnum as int, cden as int),
        r <= 1_000_000,
{
    if wsum == 0 || cden == 0 {
        return 0;
    }
    proof {
        assert(0 <= 1_000_000 * (w as int) * (cnum as int)
            < 0x1_0000_0000_0000_0000_0000_0000_0000_0000 && 0 <= 1_000_000 * (w as int)
            < 0x1_0000_0000_0000_0000_0000_0000_0000_0000 && 0 <= (wsum as int) * (cden as int)
            < 0x1_0000_0000_0000_0000_0000_0000_0000_0000) by (nonlinear_arith)
            requires
                w <= 0xffff_ffffu32,
                cnum <= 0xffff_ffff_ffff_ffffu64,
                wsum <= 0xffff_ffffu32,
                cden <= 0xffff_ffff_ffff_ffffu64,
        ;
    }
    let num: u128 = 1_000_000u128 * (w as u128) * (cnum as u128);
    let den: u128 = (wsum as u128) * (cden as u128);
    proof {
        assert((wsum as int) * (cden as int) >= 1) by (nonlinear_arith)
            requires
                wsum >= 1,
                cden >= 1,
        ;
    }
    let q = num / den;
    proof {
        assert(num as int / den as int <= 1_000_000) by (nonlinear_arith)
            requires
                num == 1_000_000 * (w as int) * (cnum as int),
                den == (wsum as int) * (cden as int),
                w <= wsum,
                cnum <= cden,
                wsum >= 1,
                cden >= 1,
        ;
    }
    q as u64
}

/// Compute the closeness numerator of a value to a preferred value.
fn closeness_num(vn: u32, vd: u32, tv: u32, m: u32) -> (r: u64)
    ensures
        r as int == spec_closeness_num(vn as int, vd as int, tv as int, m as int),
        r <= (vd as int) * (m as int),
{
    proof {
        assert(0 <= (tv as int) * (vd as int) <= 0xffff_fffe_0000_0001 && 0 <= (vd as int) * (
        m as int) <= 0xffff_fffe_0000_0001) by (nonlinear_arith);
    }
    let a: u64 = (vn as u64) * 1000;
    let b: u64 = (tv as u64) * (vd as u64);
    let dn: u64 = if a >= b {
        a - b
    } else {
        b - a
    };
    let cden: u64 = (vd as u64) * (m as u64);
    if dn >= cden {
        0
    } else {
        cden - dn
    }
}

/// Compute a swatch's score for a target, in millionths.
fn compute_score(s: &Swatch, t: &Target, max_pop: u32) -> (sc: u64)
    requires
        s.wf(),
        t.wf(),
        s.population <= max_pop,
    ensures
        sc as int == spec_score(*s, *t, max_pop as int),
        sc <= 3_000_000,
{
    let wsum: u32 = t.saturation_weight + t.lightness_weight + t.population_weight;
    let sat_cn = closeness_num(
        s.hsl.saturation.num,
        s.hsl.saturation.den,
        t.saturation_targets.target,
        t.saturation_targets.max,
    );
    proof {
        assert(0 <= (s.hsl.saturation.den as int) * (t.saturation_targets.max as int)
            <= 0xffff_fffe_0000_0001 && 0 <= (s.hsl.lightness.den as int) * (
        t.lightness_targets.max as int) <= 0xffff_fffe_0000_0001) by (nonlinear_arith);
    }
    let sat_cd: u64 = (s.hsl.saturation.den as u64) * (t.saturation_targets.max as u64);
    let light_cn = closeness_num(
        s.hsl.lightness.num,
        s.hsl.lightness.den,
        t.lightness_targets.target,
        t.lightness_targets.max,
    );
    let light_cd: u64 = (s.hsl.lightness.den as u64) * (t.lightness_targets.max as u64);
    let t1 = score_term(t.saturation_weight, wsum, sat_cn, sat_cd);
    let t2 = score_term(t.lightness_weight, wsum, light_cn, light_cd);
    let t3 = score_term(t.population_weight, wsum, s.population as u64, max_pop as u64);
    t1 + t2 + t3
}

/// The largest population among the swatches.
fn max_population(swatches: &Vec<Swatch>) -> (r: u32)
    ensures
        r as int == spec_max_population(swatches@),
{
    let mut r: u32 = 0;
    let mut i: usize = 0;
    while i < swatches.len()
        invariant
            i <= swatches@.len(),
            r as int == spec_max_population(swatches@.subrange(0, i as int)),
        decreases swatches@.len() - i,
    {
        let p = swatches[i].get_population();
        proof {
            assert(swatches@.subrange(0, i + 1).drop_last() =~= swatches@.subrange(0, i as int));
            assert(swatches@.subrange(0, i + 1).last() == swatches@[i as int]);
        }
        if p >= r {
            r = p;
        }
        i = i + 1;
    }
    proof {
        assert(swatches@.subrange(0, swatches@.len() as int) =~= swatches@);
    }
    r
}

/// No population exceeds the largest population.
proof fn lemma_max_population_ge(s: Seq<Swatch>, j: int)
    requires
        0 <= j < s.len(),
    ensures
        s[j].population <= spec_max_population(s),
    decreases s.len(),
{
    if j == s.len() - 1 {
    } else {
        lemma_max_population_ge(s.drop_last(), j);
    }
}

/// A palette: the swatches extracted from an image, the targets scored
/// against them, the swatch selected for each target, and the single
/// highest-population swatch.
pub struct Palette {
    pub swatches: Vec<Swatch>,
    pub targets: Vec<Target>,
    /// The swatch selected for each target, position by position.
    pub selected_swatches: Vec<Option<Swatch>>,
    /// The colors claimed by exclusive targets.
    pub used_colors: SparseBooleanArray,
    /// The swatch with the largest population; ties keep the earliest.
    pub dominant_swatch: Option<Swatch>,
}

impl Palette {
    /// Build a palette: find the dominant swatch, then, for each target in
    /// order, score every eligible swatch and select the best, letting each
    /// exclusive target claim its selected color.
    pub fn new(swatches: Vec<Swatch>, targets: Vec<Target>) -> (p: Palette)
        requires
            forall|i: int| 0 <= i < swatches@.len() ==> (#[trigger] swatches@[i]).wf(),
            forall|i: int| 0 <= i < targets@.len() ==> (#[trigger] targets@[i]).wf(),
        ensures
            p.swatches@ == swatches@,
            p.targets@ == targets@,
            p.selected_swatches@.len() == targets@.len(),
            forall|k: int|
                0 <= k < targets@.len() ==> p.selected_swatches@[k] == spec_selection(
                    swatches@,
                    targets@,
                    spec_max_population(swatches@),
                    k,
                ),
            (p.dominant_swatch is None) <==> swatches@.len() == 0,
            p.dominant_swatch is Some ==> exists|i: int|
                0 <= i < swatches@.len() && p.dominant_swatch->Some_0 == swatches@[i] && (forall|
                    j: int,
                |
                    0 <= j < swatches@.len() ==> (#[trigger] swatches@[j]).population <= swatches@[
                        i].population) && (forall|j: int|
                    0 <= j < i ==> (#[trigger] swatches@[j]).population < swatches@[i].population),
    {
        let dominant = Self::find_dominant_swatch(&swatches);
        let max_pop = max_population(&swatches);
        let ghost mp = max_pop as int;
        proof {
            assert forall|j: int| 0 <= j < swatches@.len() implies (
            #[trigger] swatches@[j]).population <= max_pop by {
                lemma_max_population_ge(swatches@, j);
            }
        }
        let mut used = SparseBooleanArray::new(0);
        let ghost mut uset: Set<int> = Set::empty();
        let mut selected: Vec<Option<Swatch>> = Vec::new();
        let mut k: usize = 0;
        while k < targets.len()
            invariant
                k <= targets@.len(),
                selected@.len() == k,
                forall|i: int| 0 <= i < swatches@.len() ==> (#[trigger] swatches@[i]).wf(),
                forall|i: int| 0 <= i < targets@.len() ==> (#[trigger] targets@[i]).wf(),
                forall|j: int|
                    0 <= j < swatches@.len() ==> (#[trigger] swatches@[j]).population <= max_pop,
                mp == max_pop as int,
                mp == spec_max_population(swatches@),
                used.wf(),
                uset == spec_used_after(swatches@, targets@, mp, k as int),
                forall|c: int|
                    (used.view().dom().contains(c) && used.view()[c]) <==> uset.contains(c),
                forall|kk: int|
                    0 <= kk < k ==> selected@[kk] == spec_selection(swatches@, targets@, mp, kk),
            decreases targets@.len() - k,
        {
            let t = targets[k];
            let ghost u = uset;
            let mut found = false;
            let mut best: usize = 0;
            let mut best_score: u64 = 0;
            let mut i: usize = 0;
            while i < swatches.len()
                invariant
                    i <= swatches@.len(),
                    k < targets@.len(),
                    t == targets@[k as int],
                    forall|ii: int| 0 <= ii < swatches@.len() ==> (#[trigger] swatches@[ii]).wf(),
                    forall|ii: int| 0 <= ii < targets@.len() ==> (#[trigger] targets@[ii]).wf(),
                    forall|j: int|
                        0 <= j < swatches@.len() ==> (#[trigger] swatches@[j]).population
                            <= max_pop,
                    mp == max_pop as int,
                    used.wf(),
                    forall|c: int|
                        (used.view().dom().contains(c) && used.view()[c]) <==> u.contains(c),
                    !found ==> spec_best_in_prefix(swatches@, t, u, mp, i as int) == -1,
                    found ==> best < i && spec_best_in_prefix(swatches@, t, u, mp, i as int)
                        == best as int,
                    found ==> best_score as int == spec_score(swatches@[best as int], t, mp),
                decreases swatches@.len() - i,
            {
                let s = swatches[i];
                let eligible = if t.is_exclusive() {
                    !used.get_or_false(s.get_rgb())
                } else {
                    true
                };
                if eligible {
                    let sc = compute_score(&s, &t, max_pop);
                    if !found || sc > best_score {
                        found = true;
                        best = i;
                        best_score = sc;
                    }
                }
                i = i + 1;
            }
            if found {
                selected.push(Some(swatches[best]));
                if t.is_exclusive() {
                    used.put(swatches[best].get_rgb(), true);
                }
            } else {
                selected.push(None);
            }
            proof {
                let b = spec_best_in_prefix(swatches@, t, u, mp, swatches@.len() as int);
                let u2 = spec_used_after(swatches@, targets@, mp, k + 1);
                if t.is_exclusive && b != -1 {
                    assert(u2 == u.insert(swatches@[b].rgb as int));
                    uset = u.insert(swatches@[b].rgb as int);
                } else {
                    assert(u2 == u);
                }
            }
            k = k + 1;
        }
        Palette { swatches, targets, selected_swatches: selected, used_colors: used, dominant_swatch: dominant }
    }

    /// All the swatches which make up the palette.
    pub fn get_swatches(&self) -> (r: &Vec<Swatch>)
        ensures
            r == &self.swatches,
    {
        &self.swatches
    }

    /// The targets this palette was scored against.
    pub fn get_targets(&self) -> (r: &Vec<Target>)
        ensures
            r == &self.targets,
    {
        &self.targets
    }

    /// The swatch selected for the target at `index` of the target list, or
    /// `None` when no swatch was eligible for it.
    pub fn get_swatch_for_target(&self, index: usize) -> (r: Option<Swatch>)
        requires
            index < self.selected_swatches@.len(),
        ensures
            r == self.selected_swatches@[index as int],
    {
        self.selected_swatches[index]
    }

    /// The swatch with the largest population, or `None` for an empty
    /// palette.
    pub fn get_dominant_swatch(&self) -> (r: Option<Swatch>)
        ensures
            r == self.dominant_swatch,
    {
        self.dominant_swatch
    }

    /// The swatch with the largest population, earliest first on ties.
    fn find_dominant_swatch(swatches: &Vec<Swatch>) -> (r: Option<Swatch>)
        ensures
            (r is None) <==> swatches@.len() == 0,
            r is Some ==> exists|i: int|
                0 <= i < swatches@.len() && r->Some_0 == swatches@[i] && (forall|j: int|
                    0 <= j < swatches@.len() ==> (#[trigger] swatches@[j]).population <= swatches@[
                        i].population) && (forall|j: int|
                    0 <= j < i ==> (#[trigger] swatches@[j]).population < swatches@[i].population),
    {
        if swatches.len() == 0 {
            return None;
        }
        let mut best: usize = 0;
        let mut i: usize = 1;
        while i < swatches.len()
            invariant
                1 <= i <= swatches@.len(),
                best < i,
                forall|j: int|
                    0 <= j < i ==> (#[trigger] swatches@[j]).population <= swatches@[
                        best as int].population,
                forall|j: int|
                    0 <= j < best ==> (#[trigger] swatches@[j]).population < swatches@[
                        best as int].population,
            decreases swatches@.len() - i,
        {
            if swatches[i].get_population() > swatches[best].get_population() {
                best = i;
            }
            i = i + 1;
        }
        Some(swatches[best])
    }
}

/// Whether the sampling region restricts the image: a region with no area
/// means the whole image is sampled.
pub open spec fn spec_use_region(region: Rect) -> bool {
    region.left < region.right && region.top < region.bottom
}

/// The left edge of the sampled window.
pub open spec fn spec_sample_x0(image: Image, region: Rect) -> int {
    if spec_use_region(region) {
        if region.left > 0 {
            region.left as int
        } else {
            0
        }
    } else {
        0
    }
}

/// The right edge of the sampled window.
pub open spec fn spec_sample_x1(image: Image, region: Rect) -> int {
    if spec_use_region(region) {
        if region.right < image.width {
            region.right as int
        } else {
            image.width as int
        }
    } else {
        image.width as int
    }
}

/// The top edge of the sampled window.
pub open spec fn spec_sample_y0(image: Image, region: Rect) -> int {
    if spec_use_region(region) {
        if region.top > 0 {
            region.top as int
        } else {
            0
        }
    } else {
        0
    }
}

/// The bottom edge of the sampled window.
pub open spec fn spec_sample_y1(image: Image, region: Rect) -> int {
    if spec_use_region(region) {
        if region.bottom < image.height {
            region.bottom as int
        } else {
            image.height as int
        }
    } else {
        image.height as int
    }
}

/// The byte position in the image buffer of the source pixel that sample
/// `k` is read from: samples walk the sampled window row by row.
pub open spec fn spec_sample_src(image: Image, region: Rect, k: int) -> int {
    let x0 = spec_sample_x0(image, region);
    let y0 = spec_sample_y0(image, region);
    let cw = spec_sample_x1(image, region) - spec_sample_x0(image, region);
    (y0 + k / cw) * image.width + (x0 + k % cw)
}

/// The packed pixels the palette is built from: the image's pixels inside
/// the sampled window, row-major, each packed from its red, green, blue,
/// alpha bytes.
pub open spec fn spec_sampled_pixels(image: Image, region: Rect) -> Seq<i32> {
    let x0 = spec_sample_x0(image, region);
    let x1 = spec_sample_x1(image, region);
    let y0 = spec_sample_y0(image, region);
    let y1 = spec_sample_y1(image, region);
    if x0 < x1 && y0 < y1 {
        Seq::new(
            ((y1 - y0) * (x1 - x0)) as nat,
            |k: int|
                spec_argb(
                    image.buf@[4 * spec_sample_src(image, region, k) + 3],
                    image.buf@[4 * spec_sample_src(image, region, k)],
                    image.buf@[4 * spec_sample_src(image, region, k) + 1],
                    image.buf@[4 * spec_sample_src(image, region, k) + 2],
                ),
        )
    } else {
        Seq::empty()
    }
}

/// The packed pixels sampled from an image, restricted to the sampling
/// region when it has area, in row-major order.
fn sampled_pixels(image: &Image, region: &Rect) -> (pixels: Vec<i32>)
    requires
        image.wf(),
        image.width <= 0x7fff_ffff,
        image.height <= 0x7fff_ffff,
    ensures
        ({
            let x0 = spec_sample_x0(*image, *region);
            let x1 = spec_sample_x1(*image, *region);
            let y0 = spec_sample_y0(*image, *region);
            let y1 = spec_sample_y1(*image, *region);
            &&& pixels@.len() == if x0 < x1 && y0 < y1 {
                (y1 - y0) * (x1 - x0)
            } else {
                0
            }
            &&& pixels@.len() <= image.width * image.height
            &&& pixels@ == spec_sampled_pixels(*image, *region)
            &&& forall|k: int|
                0 <= k < pixels@.len() ==> #[trigger] pixels@[k] == spec_argb(
                    image.buf@[4 * spec_sample_src(*image, *region, k) + 3],
                    image.buf@[4 * spec_sample_src(*image, *region, k)],
                    image.buf@[4 * spec_sample_src(*image, *region, k) + 1],
                    image.buf@[4 * spec_sample_src(*image, *region, k) + 2],
                )
        }),
{

    let all = image.as_color_ints();
    proof {
        assert(image.width as int * image.height as int == image.width * image.height);
    }
    let all_len = all.len();
    let w = image.width;
    let h = image.height;
    if !(region.left < region.right && region.top < region.bottom) {
        proof {
            assert(all@.len() == w * h);
            assert(w as int * h as int == h as int * w as int && (w as int == 0 ==> w as int
                * h as int == 0) && (h as int == 0 ==> w as int * h as int == 0))
                by (nonlinear_arith);
            assert forall|k: int| 0 <= k < all@.len() implies #[trigger] all@[k] == spec_argb(
                image.buf@[4 * spec_sample_src(*image, *region, k) + 3],
                image.buf@[4 * spec_sample_src(*image, *region, k)],
                image.buf@[4 * spec_sample_src(*image, *region, k) + 1],
                image.buf@[4 * spec_sample_src(*image, *region, k) + 2],
            ) by {
                assert(w as int >= 1) by (nonlinear_arith)
                    requires
                        w as int * h as int >= 1,
                        w as int >= 0,
                ;
                vstd::arithmetic::div_mod::lemma_fundamental_div_mod(k, w as int);
                assert((k / (w as int)) * (w as int) == (w as int) * (k / (w as int)))
                    by (nonlinear_arith);
                assert(spec_sample_src(*image, *region, k) == k);
            }
            assert(all@ =~= spec_sampled_pixels(*image, *region));
        }
        return all;
    }
    let x0l: i64 = if region.left > 0 {
        region.left as i64
    } else {
        0
    };
    let x1l: i64 = if (region.right as i64) < (w as i64) {
        region.right as i64
    } else {
        w as i64
    };
    let y0l: i64 = if region.top > 0 {
        region.top as i64
    } else {
        0
    };
    let y1l: i64 = if (region.bottom as i64) < (h as i64) {
        region.bottom as i64
    } else {
        h as i64
    };
    let mut out: Vec<i32> = Vec::new();
    if x0l >= x1l || y0l >= y1l {
        proof {
            assert(out@ =~= spec_sampled_pixels(*image, *region));
        }
        return out;
    }
    let x0 = x0l as usize;
    let x1 = x1l as usize;
    let y0 = y0l as usize;
    let y1 = y1l as usize;
    let cw = x1 - x0;
    proof {
        assert((y1 - y0) * (x1 - x0) <= h as int * w as int && h as int * w as int == w as int
            * h as int) by (nonlinear_arith)
            requires
                0 <= y1 - y0 <= h,
                0 < x1 - x0 <= w,
        ;
    }
    proof {
        assert((y0 as int - y0 as int) * (cw as int) == 0) by (nonlinear_arith);
    }
    let mut y = y0;
    while y < y1
        invariant
            y0 <= y <= y1,
            x0 < x1 <= w,
            y0 < y1 <= h,
            w <= 0x7fff_ffff,
            h <= 0x7fff_ffff,
            cw == x1 - x0,
            x0 == spec_sample_x0(*image, *region),
            x1 == spec_sample_x1(*image, *region),
            y0 == spec_sample_y0(*image, *region),
            y1 == spec_sample_y1(*image, *region),
            image.width == w,
            image.height == h,
            all@.len() == w * h,
            all_len == all@.len(),
            forall|i: int|
                0 <= i < all@.len() ==> #[trigger] all@[i] == spec_argb(
                    image.buf@[4 * i + 3],
                    image.buf@[4 * i],
                    image.buf@[4 * i + 1],
                    image.buf@[4 * i + 2],
                ),
            out@.len() == (y - y0) * cw,
            (y1 - y0) * cw <= w * h,
            forall|k: int|
                0 <= k < out@.len() ==> #[trigger] out@[k] == all@[spec_sample_src(
                    *image,
                    *region,
                    k,
                )],
        decreases y1 - y,
    {
        let mut x = x0;
        while x < x1
            invariant
                y0 <= y < y1,
                x0 <= x <= x1,
                x0 < x1 <= w,
                y0 < y1 <= h,
                w <= 0x7fff_ffff,
                h <= 0x7fff_ffff,
                cw == x1 - x0,
                x0 == spec_sample_x0(*image, *region),
                x1 == spec_sample_x1(*image, *region),
                y0 == spec_sample_y0(*image, *region),
                y1 == spec_sample_y1(*image, *region),
                image.width == w,
                image.height == h,
                all@.len() == w * h,
                all_len == all@.len(),
                forall|i: int|
                    0 <= i < all@.len() ==> #[trigger] all@[i] == spec_argb(
                        image.buf@[4 * i + 3],
                        image.buf@[4 * i],
                        image.buf@[4 * i + 1],
                        image.buf@[4 * i + 2],
                    ),
                out@.len() == (y - y0) * cw + (x - x0),
                (y1 - y0) * cw <= w * h,
                forall|k: int|
                    0 <= k < out@.len() ==> #[trigger] out@[k] == all@[spec_sample_src(
                        *image,
                        *region,
                        k,
                    )],
            decreases x1 - x,
        {
            proof {
                assert(0 <= (y as int) * (w as int) + x < (w as int) * (h as int))
                    by (nonlinear_arith)
                    requires
                        0 <= x < w,
                        0 <= y < h,
                ;
                assert((y - y0) * cw + cw <= (y1 - y0) * cw) by (nonlinear_arith)
                    requires
                        y0 <= y < y1,
                        cw >= 0,
                ;
            }
            let idx = y * w + x;
            let ghost k0 = out@.len() as int;
            out.push(all[idx]);
            proof {
                vstd::arithmetic::div_mod::lemma_fundamental_div_mod_converse(
                    k0,
                    cw as int,
                    y - y0,
                    x - x0,
                );
                assert(spec_sample_src(*image, *region, k0) == idx);
            }
            x = x + 1;
        }
        proof {
            assert((y + 1 - y0) * cw == (y - y0) * cw + cw) by (nonlinear_arith);
        }
        y = y + 1;
    }
    proof {
        assert forall|k: int| 0 <= k < out@.len() implies #[trigger] out@[k] == spec_argb(
            image.buf@[4 * spec_sample_src(*image, *region, k) + 3],
            image.buf@[4 * spec_sample_src(*image, *region, k)],
            image.buf@[4 * spec_sample_src(*image, *region, k) + 1],
            image.buf@[4 * spec_sample_src(*image, *region, k) + 2],
        ) by {
            vstd::arithmetic::div_mod::lemma_fundamental_div_mod(k, cw as int);
            let q = k / (cw as int);
            let r = k % (cw as int);
            assert(0 <= q < y1 - y0 && 0 <= r < cw) by (nonlinear_arith)
                requires
                    0 <= k < (y1 - y0) * (cw as int),
                    cw >= 1,
                    k == (cw as int) * q + r,
                    0 <= r < cw,
            ;
            let yy = y0 + q;
            let xx = x0 + r;
            assert(spec_sample_src(*image, *region, k) == yy * w + xx);
            assert(0 <= yy * (w as int) + xx < (w as int) * (h as int)) by (nonlinear_arith)
                requires
                    0 <= xx < w,
                    0 <= yy < h,
            ;
        }
        assert(out@ =~= spec_sampled_pixels(*image, *region));
    }
    out
}

/// Builder of [`Palette`] instances: an image, the targets to score, the
/// admissibility filters, and the sampling limits.
pub struct PaletteBuilder {
    pub image: Image,
    pub targets: Vec<Target>,
    pub filters: Vec<DefaultFilter>,
    pub max_colors: i32,
    pub resize_area: i32,
    pub resize_max_dimension: i32,
    pub region: Rect,
}

impl PaletteBuilder {
    /// Start building a palette for an image, with the default filter, the
    /// six canonical targets in their standard order, and the default
    /// sampling limits.
    pub fn new(image: Image) -> (b: PaletteBuilder)
        ensures
            b.image == image,
            b.max_colors == DEFAULT_CALCULATE_NUMBER_COLORS,
            b.resize_area == DEFAULT_RESIZE_IMAGE_AREA,
            b.resize_max_dimension == -1,
            b.filters@.len() == 1,
            b.targets@.len() == 6,
            b.targets@[0] == crate::target::spec_target_of_kind(TargetKind::LightVibrant),
            b.targets@[1] == crate::target::spec_target_of_kind(TargetKind::Vibrant),
            b.targets@[2] == crate::target::spec_target_of_kind(TargetKind::DarkVibrant),
            b.targets@[3] == crate::target::spec_target_of_kind(TargetKind::LightMuted),
            b.targets@[4] == crate::target::spec_target_of_kind(TargetKind::Muted),
            b.targets@[5] == crate::target::spec_target_of_kind(TargetKind::DarkMuted),
            forall|i: int| 0 <= i < b.targets@.len() ==> (#[trigger] b.targets@[i]).wf(),
    {
        let mut filters: Vec<DefaultFilter> = Vec::new();
        filters.push(DefaultFilter);
        let mut targets: Vec<Target> = Vec::new();
        targets.push(Target::new(TargetKind::LightVibrant));
        targets.push(Target::new(TargetKind::Vibrant));
        targets.push(Target::new(TargetKind::DarkVibrant));
        targets.push(Target::new(TargetKind::LightMuted));
        targets.push(Target::new(TargetKind::Muted));
        targets.push(Target::new(TargetKind::DarkMuted));
        PaletteBuilder {
            image,
            targets,
            filters,
            max_colors: DEFAULT_CALCULATE_NUMBER_COLORS,
            resize_area: DEFAULT_RESIZE_IMAGE_AREA,
            resize_max_dimension: -1,
            region: Rect { left: 0, top: 0, right: 0, bottom: 0 },
        }
    }

    /// Generate the palette: sample the image's pixels, restricted to the
    /// region of interest when one with area is set, quantize them to at
    /// most `max_colors` swatches, and select the best swatch for each
    /// target in order, honoring exclusivity.
    pub fn generate(&self) -> (p: Palette)
        requires
            self.image.wf(),
            self.image.width <= 0x7fff_ffff,
            self.image.height <= 0x7fff_ffff,
            self.image.width * self.image.height <= 0xffff_ffff,
            self.max_colors >= 1,
            forall|i: int| 0 <= i < self.targets@.len() ==> (#[trigger] self.targets@[i]).wf(),
        ensures
            p.targets@ == self.targets@,
            p.swatches@.len() <= self.max_colors,
            exists|average: Seq<Swatch>|
                #[trigger] spec_quantizer_post(
                    spec_sampled_pixels(self.image, self.region),
                    self.filters@,
                    self.max_colors as int,
                    average,
                    p.swatches@,
                ),
            p.selected_swatches@.len() == self.targets@.len(),
            forall|k: int|
                0 <= k < p.targets@.len() ==> p.selected_swatches@[k] == spec_selection(
                    p.swatches@,
                    p.targets@,
                    spec_max_population(p.swatches@),
                    k,
                ),
            (p.dominant_swatch is None) <==> p.swatches@.len() == 0,
    {
        let pixels = sampled_pixels(&self.image, &self.region);
        proof {
            assert(self.image.width as int * self.image.height as int == self.image.width
                * self.image.height);
        }
        let ccq = ColorCutQuantizer::new(pixels, self.max_colors, &self.filters);
        let swatches = ccq.get_quantized_colors().clone();
        proof {
            assert(swatches@ =~= ccq.quantized_colors@);
            assert(spec_quantizer_post(
                spec_sampled_pixels(self.image, self.region),
                self.filters@,
                self.max_colors as int,
                ccq.average_colors@,
                swatches@,
            ));
        }
        let targets = self.targets.clone();
        proof {
            assert(targets@ =~= self.targets@);
        }
        Palette::new(swatches, targets)
    }
}

} // verus!
