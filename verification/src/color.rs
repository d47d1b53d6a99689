//! Packed ARGB color integers and the operations that pack and unpack them.

use vstd::prelude::*;
use vstd::utf8::encode_utf8;

verus! {

/// Whether the byte is an ASCII hexadecimal digit.
pub open spec fn spec_is_hex_byte(b: u8) -> bool {
    (0x30 <= b && b <= 0x39) || (0x61 <= b && b <= 0x66) || (0x41 <= b && b <= 0x46)
}

/// The value of an ASCII hexadecimal digit.
pub open spec fn spec_hex_byte_val(b: u8) -> int {
    if 0x30 <= b && b <= 0x39 {
        b - 0x30
    } else if 0x61 <= b && b <= 0x66 {
        b - 0x57
    } else {
        b - 0x37
    }
}

/// The value of the first `n` bytes read as big-endian hexadecimal digits.
pub open spec fn spec_hex_value(bs: Seq<u8>, n: int) -> int
    decreases n,
{
    if n <= 0 {
        0
    } else {
        spec_hex_value(bs, n - 1) * 16 + spec_hex_byte_val(bs[n - 1])
    }
}

/// Sixteen to the power `n`.
pub open spec fn pow16(n: int) -> int
    decreases n,
{
    if n <= 0 {
        1
    } else {
        16 * pow16(n - 1)
    }
}

/// Powers of sixteen are positive.
proof fn lemma_pow16_pos(n: int)
    ensures
        pow16(n) >= 1,
    decreases n,
{
    if n > 0 {
        lemma_pow16_pos(n - 1);
    }
}

/// Powers of sixteen are monotone in the exponent.
proof fn lemma_pow16_le(a: int, b: int)
    requires
        a <= b,
    ensures
        1 <= pow16(a) <= pow16(b),
    decreases b - a,
{
    lemma_pow16_pos(a);
    if a < b {
        lemma_pow16_le(a, b - 1);
    }
}

/// A hexadecimal number of `n` digits is below sixteen to the `n`.
proof fn lemma_hex_value_bound(bs: Seq<u8>, n: int)
    requires
        forall|i: int| 0 <= i < n ==> spec_is_hex_byte(#[trigger] bs[i]),
    ensures
        0 <= spec_hex_value(bs, n) < pow16(n),
    decreases n,
{
    if n > 0 {
        lemma_hex_value_bound(bs, n - 1);
        assert(0 <= spec_hex_byte_val(bs[n - 1]) <= 15);
        assert(pow16(n) == 16 * pow16(n - 1));
    } else {
        lemma_pow16_pos(n);
    }
}

/// Whether the UTF-8 bytes spell a color: a number sign followed by six
/// hexadecimal digits (red, green, blue) or eight (alpha, red, green, blue).
pub open spec fn spec_valid_color_bytes(bs: Seq<u8>) -> bool {
    &&& (bs.len() == 7 || bs.len() == 9)
    &&& bs[0] == 0x23
    &&& forall|i: int| 1 <= i < bs.len() ==> spec_is_hex_byte(#[trigger] bs[i])
}

/// The packed color spelled by valid color bytes: six digits get a fully
/// opaque alpha, eight digits carry their own.
pub open spec fn spec_parsed_color(bs: Seq<u8>) -> i32 {
    if bs.len() == 7 {
        (((0xff00_0000 + spec_hex_value(bs.skip(1), 6)) as u32) as i32)
    } else {
        ((spec_hex_value(bs.skip(1), 8) as u32) as i32)
    }
}

/// A packed color integer with byte layout `[alpha:8][red:8][green:8][blue:8]`,
/// most to least significant byte, stored as a 32-bit signed integer.
#[derive(PartialEq, Eq, Structural, Clone, Copy, Debug, Hash)]
pub struct ColorInt(pub i32);

/// The alpha component: the most significant byte of the packed value.
pub open spec fn spec_alpha(c: i32) -> u8 {
    (((c as u32) >> 24) & 0xff) as u8
}

/// The red component: the second most significant byte of the packed value.
pub open spec fn spec_red(c: i32) -> u8 {
    (((c as u32) >> 16) & 0xff) as u8
}

/// The green component: the third most significant byte of the packed value.
pub open spec fn spec_green(c: i32) -> u8 {
    (((c as u32) >> 8) & 0xff) as u8
}

/// The blue component: the least significant byte of the packed value.
pub open spec fn spec_blue(c: i32) -> u8 {
    ((c as u32) & 0xff) as u8
}

/// The packed value whose components are `a`, `r`, `g`, `b`.
pub open spec fn spec_argb(a: u8, r: u8, g: u8, b: u8) -> i32 {
    ((((a as u32) << 24) | ((r as u32) << 16) | ((g as u32) << 8) | (b as u32)) as i32)
}

/// Packing four components and extracting them again returns the components:
/// the four extractors invert `spec_argb`.
pub proof fn lemma_argb_components(a: u8, r: u8, g: u8, b: u8)
    ensures
        spec_alpha(spec_argb(a, r, g, b)) == a,
        spec_red(spec_argb(a, r, g, b)) == r,
        spec_green(spec_argb(a, r, g, b)) == g,
        spec_blue(spec_argb(a, r, g, b)) == b,
{
    assert(spec_alpha(spec_argb(a, r, g, b)) == a && spec_red(spec_argb(a, r, g, b)) == r
        && spec_green(spec_argb(a, r, g, b)) == g && spec_blue(spec_argb(a, r, g, b)) == b)
        by (bit_vector);
}

/// A packed value equals the packing of its own four components.
pub proof fn lemma_components_argb(c: i32)
    ensures
        spec_argb(spec_alpha(c), spec_red(c), spec_green(c), spec_blue(c)) == c,
{
    assert(spec_argb(spec_alpha(c), spec_red(c), spec_green(c), spec_blue(c)) == c)
        by (bit_vector);
}

impl ColorInt {
    /// Return the alpha component of this packed color.
    pub fn alpha(&self) -> (r: u8)
        ensures
            r == spec_alpha(self.0),
    {
        ((((self.0 as u32) >> 24) & 0xff) as u8)
    }

    /// Return the red component of this packed color.
    pub fn red(&self) -> (r: u8)
        ensures
            r == spec_red(self.0),
    {
        ((((self.0 as u32) >> 16) & 0xff) as u8)
    }

    /// Return the green component of this packed color.
    pub fn green(&self) -> (r: u8)
        ensures
            r == spec_green(self.0),
    {
        ((((self.0 as u32) >> 8) & 0xff) as u8)
    }

    /// Return the blue component of this packed color.
    pub fn blue(&self) -> (r: u8)
        ensures
            r == spec_blue(self.0),
    {
        (((self.0 as u32) & 0xff) as u8)
    }

    /// Add two packed values, wrapping on overflow.
    pub fn wrapping_add(self, rhs: ColorInt) -> (r: ColorInt)
        ensures
            r.0 == vstd::wrapping::i32_specs::wrapping_add(self.0, rhs.0),
    {
        ColorInt(self.0.wrapping_add(rhs.0))
    }

    /// Subtract two packed values, wrapping on overflow.
    pub fn wrapping_sub(self, rhs: ColorInt) -> (r: ColorInt)
        ensures
            r.0 == vstd::wrapping::i32_specs::wrapping_sub(self.0, rhs.0),
    {
        ColorInt(self.0.wrapping_sub(rhs.0))
    }

    /// Multiply two packed values, wrapping on overflow.
    pub fn wrapping_mul(self, rhs: ColorInt) -> (r: ColorInt)
        ensures
            r.0 == vstd::wrapping::i32_specs::wrapping_mul(self.0, rhs.0),
    {
        ColorInt(self.0.wrapping_mul(rhs.0))
    }
}

/// Color companion: packing helpers and the common opaque colors.
pub struct Color;

impl Color {
    /// Return the alpha component of a packed color.
    pub fn alpha(color: ColorInt) -> (r: u8)
        ensures
            r == spec_alpha(color.0),
    {
        color.alpha()
    }

    /// Return the red component of a packed color.
    pub fn red(color: ColorInt) -> (r: u8)
        ensures
            r == spec_red(color.0),
    {
        color.red()
    }

    /// Return the green component of a packed color.
    pub fn green(color: ColorInt) -> (r: u8)
        ensures
            r == spec_green(color.0),
    {
        color.green()
    }

    /// Return the blue component of a packed color.
    pub fn blue(color: ColorInt) -> (r: u8)
        ensures
            r == spec_blue(color.0),
    {
        color.blue()
    }

    /// Pack alpha, red, green and blue components into a color integer.
    pub fn argb(alpha: u8, red: u8, green: u8, blue: u8) -> (c: ColorInt)
        ensures
            c.0 == spec_argb(alpha, red, green, blue),
            spec_alpha(c.0) == alpha,
            spec_red(c.0) == red,
            spec_green(c.0) == green,
            spec_blue(c.0) == blue,
    {
        proof {
            lemma_argb_components(alpha, red, green, blue);
        }
        ColorInt(
            ((((alpha as u32) << 24) | ((red as u32) << 16) | ((green as u32) << 8)
                | (blue as u32)) as i32),
        )
    }

    /// Pack red, green and blue components into a fully opaque color integer.
    pub fn rgb(red: u8, green: u8, blue: u8) -> (c: ColorInt)
        ensures
            c.0 == spec_argb(255, red, green, blue),
            spec_alpha(c.0) == 255,
            spec_red(c.0) == red,
            spec_green(c.0) == green,
            spec_blue(c.0) == blue,
    {
        Self::argb(255, red, green, blue)
    }

    /// Fully opaque white.
    pub fn white() -> (c: ColorInt)
        ensures
            c.0 == spec_argb(255, 255, 255, 255),
    {
        Self::argb(255, 255, 255, 255)
    }

    /// Fully opaque black.
    pub fn black() -> (c: ColorInt)
        ensures
            c.0 == spec_argb(255, 0, 0, 0),
    {
        Self::argb(255, 0, 0, 0)
    }

    /// Parse a color spelled as a number sign followed by six hexadecimal
    /// digits (red, green, blue; the alpha is fully opaque) or eight
    /// (alpha, red, green, blue). Any other string yields `None`.
    pub fn parse_color(color_string: String) -> (r: Option<ColorInt>)
        ensures
            (r is Some) <==> spec_valid_color_bytes(encode_utf8(color_string@)),
            r is Some ==> r->Some_0.0 == spec_parsed_color(encode_utf8(color_string@)),
    {
        let s = color_string.as_str();
        let bytes = s.as_bytes();
        let ghost bs = encode_utf8(color_string@);
        proof {
            assert(bytes@ == bs);
        }
        let n = bytes.len();
        if n != 7 && n != 9 {
            return None;
        }
        if bytes[0] != 0x23 {
            return None;
        }
        let mut v: u64 = 0;
        let mut i: usize = 1;
        while i < n
            invariant
                1 <= i <= n,
                n == 7 || n == 9,
                bytes@ == bs,
                bs == encode_utf8(color_string@),
                bs[0] == 0x23,
                n == bs.len(),
                v as int == spec_hex_value(bs.skip(1), i - 1),
                v < pow16(i - 1),
                forall|j: int| 1 <= j < i ==> spec_is_hex_byte(#[trigger] bs[j]),
            decreases n - i,
        {
            let b = bytes[i];
            let d: u8 = if 0x30 <= b && b <= 0x39 {
                b - 0x30
            } else if 0x61 <= b && b <= 0x66 {
                b - 0x57
            } else if 0x41 <= b && b <= 0x46 {
                b - 0x37
            } else {
                proof {
                    assert(!spec_is_hex_byte(bs[i as int]));
                    assert(!spec_valid_color_bytes(bs));
                }
                return None;
            };
            proof {
                lemma_pow16_le(i - 1, 8);
                lemma_pow16_le(0, 8);
                assert(pow16(8) == 0x1_0000_0000) by {
                    reveal_with_fuel(pow16, 10);
                }
                assert(bs.skip(1)[i - 1] == bs[i as int]);
                assert(pow16(i as int) == 16 * pow16(i - 1));
                assert(spec_hex_value(bs.skip(1), i as int) == spec_hex_value(bs.skip(1), i - 1)
                    * 16 + spec_hex_byte_val(bs.skip(1)[i - 1]));
            }
            v = v * 16 + (d as u64);
            i = i + 1;
        }
        proof {
            lemma_pow16_le(n - 1, 8);
            assert(pow16(8) == 0x1_0000_0000) by {
                reveal_with_fuel(pow16, 10);
            }
            assert forall|j: int| 0 <= j < n - 1 implies spec_is_hex_byte(
                #[trigger] bs.skip(1)[j],
            ) by {
                assert(bs.skip(1)[j] == bs[j + 1]);
            }
            lemma_hex_value_bound(bs.skip(1), n - 1);
            assert(spec_valid_color_bytes(bs));
        }
        if n == 7 {
            Some(ColorInt((#[verifier::truncate] (((0xff00_0000u64 + v) as u32) as i32))))
        } else {
            Some(ColorInt((#[verifier::truncate] ((v as u32) as i32))))
        }
    }
}

} // verus!
