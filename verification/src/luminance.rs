//! Relative luminance of packed colors, in fixed point.
//!
//! The sRGB gamma-expansion curve has a non-rational exponent, so it is
//! tabulated once and for all: entry `c` of the table holds the linear-light
//! value of channel level `c`, scaled by 10^8 and rounded to nearest (the
//! piecewise WCAG curve with threshold 0.04045 and exponent 2.4). Entry 0 is
//! 0 and entry 255 is exactly 10^8, so pure black and pure white keep their
//! exact luminances 0 and 1.

use vstd::prelude::*;

use crate::color::ColorInt;
use crate::color::{spec_blue, spec_green, spec_red};

verus! {

/// Linear-light value of each 8-bit channel level, scaled by 10^8.
pub open spec fn linear_table() -> Seq<u32> {
    seq![
        0u32, 30353, 60705, 91058, 121411, 151763, 182116, 212469, 242822, 273174, 303527, 334654,
        367651, 402472, 439144, 477695, 518152, 560539, 604883, 651209, 699541, 749903, 802319,
        856813, 913406, 972122, 1032982, 1096009, 1161225, 1228649, 1298303, 1370208, 1444384,
        1520851, 1599629, 1680738, 1764195, 1850022, 1938236, 2028856, 2121901, 2217388, 2315337,
        2415763, 2518686, 2624122, 2732089, 2842604, 2955683, 3071344, 3189603, 3310477, 3433981,
        3560131, 3688945, 3820437, 3954624, 4091520, 4231141, 4373503, 4518620, 4666509, 4817182,
        4970657, 5126946, 5286065, 5448028, 5612849, 5780543, 5951124, 6124605, 6301002, 6480327,
        6662594, 6847817, 7036010, 7227185, 7421357, 7618538, 7818742, 8021982, 8228271, 8437621,
        8650046, 8865559, 9084171, 9305896, 9530747, 9758735, 9989873, 10224173, 10461648,
        10702310, 10946171, 11193243, 11443537, 11697067, 11953843, 12213877, 12477182, 12743768,
        13013648, 13286832, 13563333, 13843162, 14126329, 14412847, 14702727, 14995979, 15292615,
        15592646, 15896084, 16202938, 16513219, 16826940, 17144110, 17464740, 17788842, 18116424,
        18447499, 18782077, 19120168, 19461783, 19806932, 20155625, 20507874, 20863687, 21223076,
        21586050, 21952620, 22322796, 22696587, 23074005, 23455058, 23839757, 24228112, 24620133,
        25015828, 25415209, 25818285, 26225066, 26635560, 27049779, 27467731, 27889426, 28314874,
        28744084, 29177065, 29613827, 30054379, 30498731, 30946892, 31398871, 31854678, 32314321,
        32777810, 33245154, 33716362, 34191442, 34670406, 35153260, 35640014, 36130678, 36625260,
        37123768, 37626212, 38132601, 38642943, 39157248, 39675523, 40197778, 40724021, 41254261,
        41788507, 42326767, 42869050, 43415364, 43965717, 44520119, 45078578, 45641102, 46207700,
        46778380, 47353150, 47932018, 48514994, 49102085, 49693300, 50288646, 50888132, 51491767,
        52099557, 52711513, 53327640, 53947949, 54572446, 55201140, 55834039, 56471151, 57112483,
        57758044, 58407842, 59061884, 59720179, 60382734, 61049557, 61720656, 62396039, 63075714,
        63759687, 64447968, 65140564, 65837482, 66538730, 67244316, 67954247, 68668531, 69387176,
        70110189, 70837578, 71569350, 72305513, 73046074, 73791041, 74540421, 75294222, 76052450,
        76815115, 77582222, 78353779, 79129794, 79910274, 80695226, 81484657, 82278575, 83076988,
        83879901, 84687323, 85499261, 86315721, 87136712, 87962240, 88792312, 89626935, 90466117,
        91309865, 92158186, 93011086, 93868573, 94730654, 95597335, 96468625, 97344529, 98225055,
        99110210, 100000000,
    ]
}

/// Linear-light value of the channel level `c`, scaled by 10^8.
pub open spec fn spec_linear(c: u8) -> u32 {
    linear_table()[c as int]
}

/// Denominator of the fixed-point luminance scale: 10^4 (the weight scale)
/// times 10^8 (the linearization scale).
pub const LUMINANCE_DEN: u64 = 1_000_000_000_000;

/// Relative luminance of a packed color, ignoring alpha, scaled by
/// [`LUMINANCE_DEN`]: the D65 luminance weights 0.2126, 0.7152 and 0.0722 in
/// ten-thousandths, applied to the linearized channels.
pub open spec fn spec_luminance(c: i32) -> int {
    2126 * spec_linear(spec_red(c)) + 7152 * spec_linear(spec_green(c)) + 722 * spec_linear(
        spec_blue(c),
    )
}

/// Look up the linear-light value of a channel level, scaled by 10^8.
pub fn linear_component(c: u8) -> (r: u32)
    ensures
        r == spec_linear(c),
{
    let t: [u32; 256] = [
        0u32, 30353, 60705, 91058, 121411, 151763, 182116, 212469, 242822, 273174, 303527, 334654,
        367651, 402472, 439144, 477695, 518152, 560539, 604883, 651209, 699541, 749903, 802319,
        856813, 913406, 972122, 1032982, 1096009, 1161225, 1228649, 1298303, 1370208, 1444384,
        1520851, 1599629, 1680738, 1764195, 1850022, 1938236, 2028856, 2121901, 2217388, 2315337,
        2415763, 2518686, 2624122, 2732089, 2842604, 2955683, 3071344, 3189603, 3310477, 3433981,
        3560131, 3688945, 3820437, 3954624, 4091520, 4231141, 4373503, 4518620, 4666509, 4817182,
        4970657, 5126946, 5286065, 5448028, 5612849, 5780543, 5951124, 6124605, 6301002, 6480327,
        6662594, 6847817, 7036010, 7227185, 7421357, 7618538, 7818742, 8021982, 8228271, 8437621,
        8650046, 8865559, 9084171, 9305896, 9530747, 9758735, 9989873, 10224173, 10461648,
        10702310, 10946171, 11193243, 11443537, 11697067, 11953843, 12213877, 12477182, 12743768,
        13013648, 13286832, 13563333, 13843162, 14126329, 14412847, 14702727, 14995979, 15292615,
        15592646, 15896084, 16202938, 16513219, 16826940, 17144110, 17464740, 17788842, 18116424,
        18447499, 18782077, 19120168, 19461783, 19806932, 20155625, 20507874, 20863687, 21223076,
        21586050, 21952620, 22322796, 22696587, 23074005, 23455058, 23839757, 24228112, 24620133,
        25015828, 25415209, 25818285, 26225066, 26635560, 27049779, 27467731, 27889426, 28314874,
        28744084, 29177065, 29613827, 30054379, 30498731, 30946892, 31398871, 31854678, 32314321,
        32777810, 33245154, 33716362, 34191442, 34670406, 35153260, 35640014, 36130678, 36625260,
        37123768, 37626212, 38132601, 38642943, 39157248, 39675523, 40197778, 40724021, 41254261,
        41788507, 42326767, 42869050, 43415364, 43965717, 44520119, 45078578, 45641102, 46207700,
        46778380, 47353150, 47932018, 48514994, 49102085, 49693300, 50288646, 50888132, 51491767,
        52099557, 52711513, 53327640, 53947949, 54572446, 55201140, 55834039, 56471151, 57112483,
        57758044, 58407842, 59061884, 59720179, 60382734, 61049557, 61720656, 62396039, 63075714,
        63759687, 64447968, 65140564, 65837482, 66538730, 67244316, 67954247, 68668531, 69387176,
        70110189, 70837578, 71569350, 72305513, 73046074, 73791041, 74540421, 75294222, 76052450,
        76815115, 77582222, 78353779, 79129794, 79910274, 80695226, 81484657, 82278575, 83076988,
        83879901, 84687323, 85499261, 86315721, 87136712, 87962240, 88792312, 89626935, 90466117,
        91309865, 92158186, 93011086, 93868573, 94730654, 95597335, 96468625, 97344529, 98225055,
        99110210, 100000000,
    ];
    proof {
        assert(t@ =~= linear_table());
    }
    t[c as usize]
}

} // verus!
