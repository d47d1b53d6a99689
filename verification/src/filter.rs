//! Admissibility filters over candidate palette colors.

use vstd::prelude::*;

use crate::color_utils::Hsl;
use crate::ratio::Ratio;

verus! {

/// Fine-grained control over which colors may enter a palette.
pub trait Filter {
    /// Whether the filter allows the color, as a predicate for contracts.
    spec fn spec_allowed(&self, rgb: i32, hsl: Hsl) -> bool;

    /// Decide whether the color `rgb`, whose hue-saturation-lightness form
    /// is `hsl`, is allowed in the palette.
    fn is_allowed(&self, rgb: i32, hsl: Hsl) -> (r: bool)
        ensures
            r == self.spec_allowed(rgb, hsl),
    ;
}

/// Whether every filter in the list allows the color.
pub open spec fn spec_allowed_by_all<F: Filter>(filters: Seq<F>, rgb: i32, hsl: Hsl) -> bool {
    forall|i: int| 0 <= i < filters.len() ==> #[trigger] filters[i].spec_allowed(rgb, hsl)
}

/// Decide whether every filter in the list allows the color.
pub fn allowed_by_all<F: Filter>(filters: &Vec<F>, rgb: i32, hsl: Hsl) -> (r: bool)
    ensures
        r == spec_allowed_by_all(filters@, rgb, hsl),
{
    let mut i: usize = 0;
    while i < filters.len()
        invariant
            i <= filters@.len(),
            forall|j: int| 0 <= j < i ==> #[trigger] filters@[j].spec_allowed(rgb, hsl),
        decreases filters@.len() - i,
    {
        if !filters[i].is_allowed(rgb, hsl) {
            return false;
        }
        i = i + 1;
    }
    true
}

/// The default admissibility filter: it rejects colors very close to white
/// or black, and a band of low-saturation colors around red commonly read
/// as skin tones.
pub struct DefaultFilter;

impl DefaultFilter {
    /// Lightness at most 0.05: close enough to black to reject.
    fn is_black(&self, hsl: &Hsl) -> (r: bool)
        ensures
            r == hsl.lightness.le_spec((Ratio { num: 5, den: 100 })),
    {
        hsl.lightness.le(&Ratio { num: 5, den: 100 })
    }

    /// Lightness at least 0.95: close enough to white to reject.
    fn is_white(&self, hsl: &Hsl) -> (r: bool)
        ensures
            r == (Ratio { num: 95, den: 100 }).le_spec(hsl.lightness),
    {
        Ratio { num: 95, den: 100 }.le(&hsl.lightness)
    }

    /// Hue in `[10, 37]` degrees with saturation at most 0.82: the
    /// low-saturation band around red.
    fn is_near_red_iline(&self, hsl: &Hsl) -> (r: bool)
        ensures
            r == ((Ratio { num: 10, den: 1 }).le_spec(hsl.hue) && hsl.hue.le_spec(
                (Ratio { num: 37, den: 1 }),
            ) && hsl.saturation.le_spec((Ratio { num: 82, den: 100 }))),
    {
        Ratio { num: 10, den: 1 }.le(&hsl.hue) && hsl.hue.le(&Ratio { num: 37, den: 1 })
            && hsl.saturation.le(&Ratio { num: 82, den: 100 })
    }
}

impl Filter for DefaultFilter {
    open spec fn spec_allowed(&self, rgb: i32, hsl: Hsl) -> bool {
        &&& !(Ratio { num: 95, den: 100 }).le_spec(hsl.lightness)
        &&& !hsl.lightness.le_spec((Ratio { num: 5, den: 100 }))
        &&& !((Ratio { num: 10, den: 1 }).le_spec(hsl.hue) && hsl.hue.le_spec(
            (Ratio { num: 37, den: 1 }),
        ) && hsl.saturation.le_spec((Ratio { num: 82, den: 100 })))
    }

    fn is_allowed(&self, rgb: i32, hsl: Hsl) -> (r: bool) {
        !self.is_white(&hsl) && !self.is_black(&hsl) && !self.is_near_red_iline(&hsl)
    }
}

} // verus!
