//! Scoring profiles: desired saturation/lightness ranges and selection weights.
//!
//! Saturation and lightness bounds are carried in thousandths of the unit
//! interval; weights are non-negative integers in thousandths, normalized on
//! read so that the positive weights sum to one.

use vstd::prelude::*;

use crate::ratio::Ratio;

verus! {

/// The six canonical profile kinds.
#[derive(PartialEq, Eq, Structural, Clone, Copy, Debug)]
pub enum TargetKind {
    /// A vibrant color which is light in luminance.
    LightVibrant,
    /// A vibrant color which is neither light nor dark.
    Vibrant,
    /// A vibrant color which is dark in luminance.
    DarkVibrant,
    /// A muted color which is light in luminance.
    LightMuted,
    /// A muted color which is neither light nor dark.
    Muted,
    /// A muted color which is dark in luminance.
    DarkMuted,
}

/// A `[min, target, max]` range in thousandths of the unit interval.
#[derive(PartialEq, Eq, Structural, Clone, Copy, Debug)]
pub struct TargetRange {
    pub min: u32,
    pub target: u32,
    pub max: u32,
}

/// A named scoring profile: desired saturation and lightness ranges and the
/// relative importance of saturation, lightness and population in scoring.
#[derive(PartialEq, Eq, Structural, Clone, Copy, Debug)]
pub struct Target {
    /// Desired saturation range, in thousandths.
    pub saturation_targets: TargetRange,
    /// Desired lightness range, in thousandths.
    pub lightness_targets: TargetRange,
    /// Raw saturation weight, in thousandths.
    pub saturation_weight: u32,
    /// Raw lightness weight, in thousandths.
    pub lightness_weight: u32,
    /// Raw population weight, in thousandths.
    pub population_weight: u32,
    /// Whether a color selected for this target is claimed exclusively.
    pub is_exclusive: bool,
}

/// The canonical profile of each kind, built from the default ranges
/// (bounds 0/500/1000, weights 240/520/240, exclusive) by narrowing
/// lightness to the dark, normal or light band and saturation to the
/// vibrant or muted band.
pub open spec fn spec_target_of_kind(kind: TargetKind) -> Target {
    let base = Target {
        saturation_targets: TargetRange { min: 0, target: 500, max: 1000 },
        lightness_targets: TargetRange { min: 0, target: 500, max: 1000 },
        saturation_weight: 240,
        lightness_weight: 520,
        population_weight: 240,
        is_exclusive: true,
    };
    let light = TargetRange { min: 550, target: 740, max: 1000 };
    let normal = TargetRange { min: 300, target: 500, max: 700 };
    let dark = TargetRange { min: 0, target: 260, max: 450 };
    let vibrant = TargetRange { min: 350, target: 1000, max: 1000 };
    let muted = TargetRange { min: 0, target: 300, max: 400 };
    match kind {
        TargetKind::LightVibrant => Target {
            lightness_targets: light,
            saturation_targets: vibrant,
            ..base
        },
        TargetKind::Vibrant => Target {
            lightness_targets: normal,
            saturation_targets: vibrant,
            ..base
        },
        TargetKind::DarkVibrant => Target {
            lightness_targets: dark,
            saturation_targets: vibrant,
            ..base
        },
        TargetKind::LightMuted => Target { lightness_targets: light, saturation_targets: muted, ..base },
        TargetKind::Muted => Target { lightness_targets: normal, saturation_targets: muted, ..base },
        TargetKind::DarkMuted => Target { lightness_targets: dark, saturation_targets: muted, ..base },
    }
}

impl Target {
    /// Well-formed: bounds lie in the unit interval and the weights are
    /// small enough that their sum cannot wrap.
    pub open spec fn wf(self) -> bool {
        &&& self.saturation_targets.min <= 1000
        &&& self.saturation_targets.target <= 1000
        &&& self.saturation_targets.max <= 1000
        &&& self.lightness_targets.min <= 1000
        &&& self.lightness_targets.target <= 1000
        &&& self.lightness_targets.max <= 1000
        &&& self.saturation_weight <= 1_000_000_000
        &&& self.lightness_weight <= 1_000_000_000
        &&& self.population_weight <= 1_000_000_000
    }

    /// The sum of the raw weights: the normalization denominator.
    pub open spec fn spec_weight_sum(self) -> int {
        self.saturation_weight + self.lightness_weight + self.population_weight
    }

    /// The normalized weight `raw / sum`, or zero when every weight is zero.
    pub open spec fn spec_normalized_weight(self, raw: u32) -> Ratio {
        if self.spec_weight_sum() == 0 {
            Ratio { num: 0, den: 1 }
        } else {
            Ratio { num: raw, den: self.spec_weight_sum() as u32 }
        }
    }

    /// Build the canonical profile of the given kind.
    pub fn new(kind: TargetKind) -> (t: Target)
        ensures
            t == spec_target_of_kind(kind),
            t.wf(),
    {
        let saturation_targets = match kind {
            TargetKind::LightVibrant | TargetKind::Vibrant | TargetKind::DarkVibrant => TargetRange {
                min: 350,
                target: 1000,
                max: 1000,
            },
            TargetKind::LightMuted | TargetKind::Muted | TargetKind::DarkMuted => TargetRange {
                min: 0,
                target: 300,
                max: 400,
            },
        };
        let lightness_targets = match kind {
            TargetKind::LightVibrant | TargetKind::LightMuted => TargetRange {
                min: 550,
                target: 740,
                max: 1000,
            },
            TargetKind::Vibrant | TargetKind::Muted => TargetRange {
                min: 300,
                target: 500,
                max: 700,
            },
            TargetKind::DarkVibrant | TargetKind::DarkMuted => TargetRange {
                min: 0,
                target: 260,
                max: 450,
            },
        };
        Target {
            saturation_targets,
            lightness_targets,
            saturation_weight: 240,
            lightness_weight: 520,
            population_weight: 240,
            is_exclusive: true,
        }
    }

    /// The minimum saturation for this target, in thousandths.
    pub fn get_minimum_saturation(&self) -> (r: u32)
        ensures
            r == self.saturation_targets.min,
    {
        self.saturation_targets.min
    }

    /// The preferred saturation for this target, in thousandths.
    pub fn get_target_saturation(&self) -> (r: u32)
        ensures
            r == self.saturation_targets.target,
    {
        self.saturation_targets.target
    }

    /// The maximum saturation for this target, in thousandths.
    pub fn get_maximum_saturation(&self) -> (r: u32)
        ensures
            r == self.saturation_targets.max,
    {
        self.saturation_targets.max
    }

    /// The minimum lightness for this target, in thousandths.
    pub fn get_minimum_lightness(&self) -> (r: u32)
        ensures
            r == self.lightness_targets.min,
    {
        self.lightness_targets.min
    }

    /// The preferred lightness for this target, in thousandths.
    pub fn get_target_lightness(&self) -> (r: u32)
        ensures
            r == self.lightness_targets.target,
    {
        self.lightness_targets.target
    }

    /// The maximum lightness for this target, in thousandths.
    pub fn get_maximum_lightness(&self) -> (r: u32)
        ensures
            r == self.lightness_targets.max,
    {
        self.lightness_targets.max
    }

    /// The normalized weight this target places on saturation: the positive
    /// weights are scaled so that they sum to one.
    pub fn get_saturation_weight(&self) -> (w: Ratio)
        requires
            self.wf(),
        ensures
            w == self.spec_normalized_weight(self.saturation_weight),
    {
        self.normalized_weight(self.saturation_weight)
    }

    /// The normalized weight this target places on lightness.
    pub fn get_lightness_weight(&self) -> (w: Ratio)
        requires
            self.wf(),
        ensures
            w == self.spec_normalized_weight(self.lightness_weight),
    {
        self.normalized_weight(self.lightness_weight)
    }

    /// The normalized weight this target places on population.
    pub fn get_population_weight(&self) -> (w: Ratio)
        requires
            self.wf(),
        ensures
            w == self.spec_normalized_weight(self.population_weight),
    {
        self.normalized_weight(self.population_weight)
    }

    /// Whether a color selected for this target is claimed exclusively, so
    /// that no later target may reuse it.
    pub fn is_exclusive(&self) -> (r: bool)
        ensures
            r == self.is_exclusive,
    {
        self.is_exclusive
    }

    fn normalized_weight(&self, raw: u32) -> (w: Ratio)
        requires
            self.wf(),
        ensures
            w == self.spec_normalized_weight(raw),
    {
        let sum = self.saturation_weight + self.lightness_weight + self.population_weight;
        if sum == 0 {
            Ratio { num: 0, den: 1 }
        } else {
            Ratio { num: raw, den: sum }
        }
    }
}

/// Builder for custom [`Target`] instances.
#[derive(Clone, Copy, Debug)]
pub struct TargetBuilder {
    pub target: Target,
}

impl TargetBuilder {
    /// Start from the canonical profile of the given kind.
    pub fn new(kind: TargetKind) -> (b: TargetBuilder)
        ensures
            b.target == spec_target_of_kind(kind),
            b.target.wf(),
    {
        TargetBuilder { target: Target::new(kind) }
    }

    /// Set the minimum saturation, in thousandths of the unit interval.
    pub fn set_minimum_saturation(self, value: u32) -> (b: TargetBuilder)
        requires
            value <= 1000,
        ensures
            b.target == (Target {
                saturation_targets: (TargetRange { min: value, ..self.target.saturation_targets }),
                ..self.target
            }),
    {
        let mut b = self;
        b.target.saturation_targets.min = value;
        b
    }

    /// Set the preferred saturation, in thousandths of the unit interval.
    pub fn set_target_saturation(self, value: u32) -> (b: TargetBuilder)
        requires
            value <= 1000,
        ensures
            b.target == (Target {
                saturation_targets: (TargetRange {
                    target: value,
                    ..self.target.saturation_targets
                }),
                ..self.target
            }),
    {
        let mut b = self;
        b.target.saturation_targets.target = value;
        b
    }

    /// Set the maximum saturation, in thousandths of the unit interval.
    pub fn set_maximum_saturation(self, value: u32) -> (b: TargetBuilder)
        requires
            value <= 1000,
        ensures
            b.target == (Target {
                saturation_targets: (TargetRange { max: value, ..self.target.saturation_targets }),
                ..self.target
            }),
    {
        let mut b = self;
        b.target.saturation_targets.max = value;
        b
    }

    /// Set the minimum lightness, in thousandths of the unit interval.
    pub fn set_minimum_lightness(self, value: u32) -> (b: TargetBuilder)
        requires
            value <= 1000,
        ensures
            b.target == (Target {
                lightness_targets: (TargetRange { min: value, ..self.target.lightness_targets }),
                ..self.target
            }),
    {
        let mut b = self;
        b.target.lightness_targets.min = value;
        b
    }

    /// Set the preferred lightness, in thousandths of the unit interval.
    pub fn set_target_lightness(self, value: u32) -> (b: TargetBuilder)
        requires
            value <= 1000,
        ensures
            b.target == (Target {
                lightness_targets: (TargetRange { target: value, ..self.target.lightness_targets }),
                ..self.target
            }),
    {
        let mut b = self;
        b.target.lightness_targets.target = value;
        b
    }

    /// Set the maximum lightness, in thousandths of the unit interval.
    pub fn set_maximum_lightness(self, value: u32) -> (b: TargetBuilder)
        requires
            value <= 1000,
        ensures
            b.target == (Target {
                lightness_targets: (TargetRange { max: value, ..self.target.lightness_targets }),
                ..self.target
            }),
    {
        let mut b = self;
        b.target.lightness_targets.max = value;
        b
    }

    /// Set the raw saturation weight, in thousandths.
    pub fn set_saturation_weight(self, weight: u32) -> (b: TargetBuilder)
        requires
            weight <= 1_000_000_000,
        ensures
            b.target == (Target { saturation_weight: weight, ..self.target }),
    {
        let mut b = self;
        b.target.saturation_weight = weight;
        b
    }

    /// Set the raw lightness weight, in thousandths.
    pub fn set_lightness_weight(self, weight: u32) -> (b: TargetBuilder)
        requires
            weight <= 1_000_000_000,
        ensures
            b.target == (Target { lightness_weight: weight, ..self.target }),
    {
        let mut b = self;
        b.target.lightness_weight = weight;
        b
    }

    /// Set the raw population weight, in thousandths.
    pub fn set_population_weight(self, weight: u32) -> (b: TargetBuilder)
        requires
            weight <= 1_000_000_000,
        ensures
            b.target == (Target { population_weight: weight, ..self.target }),
    {
        let mut b = self;
        b.target.population_weight = weight;
        b
    }

    /// Set whether a color selected for this target is exclusive to it.
    pub fn set_exclusive(self, exclusive: bool) -> (b: TargetBuilder)
        ensures
            b.target == (Target { is_exclusive: exclusive, ..self.target }),
    {
        let mut b = self;
        b.target.is_exclusive = exclusive;
        b
    }

    /// Build and return the resulting target.
    pub fn build(self) -> (t: Target)
        ensures
            t == self.target,
    {
        self.target
    }
}

} // verus!
