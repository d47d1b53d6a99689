//! Images as flat byte buffers of red, green, blue, alpha quadruples.

use vstd::prelude::*;

use crate::color::spec_argb;

verus! {

/// One pixel: four bytes, in the order red, green, blue, alpha.
pub struct Pixel {
    pub buf: Vec<u8>,
}

/// The blend of one channel of `p` at alpha `a` over the same channel `s`
/// of the pixel below, rounding up: `(a·p + (255 - a)·s) / 255`, rounded up.
pub open spec fn spec_blend_channel(a: u8, p: int, s: int) -> int {
    (a * p + (255 - a as int) * s + 254) / 255
}

/// A blended channel stays within a byte.
proof fn lemma_blend_channel_in_range(a: u8, p: u8, s: u8)
    by (nonlinear_arith)
    ensures
        0 <= a * p <= 65025,
        0 <= (255 - a as int) * s <= 65025,
        a * p + (255 - a as int) * s <= 65025,
{
}

impl Pixel {
    /// Well-formed: exactly four bytes.
    pub open spec fn wf(self) -> bool {
        self.buf@.len() == 4
    }

    /// Blend `pixel` over this pixel in place, channel by channel, using
    /// `pixel`'s alpha; the blended alpha treats the incoming coverage as
    /// full. Each channel rounds up.
    pub fn blend(&mut self, pixel: &Pixel)
        requires
            old(self).wf(),
            pixel.wf(),
        ensures
            final(self).wf(),
            final(self).buf@[0] == spec_blend_channel(pixel.buf@[3], pixel.buf@[0] as int, old(self).buf@[0] as int),
            final(self).buf@[1] == spec_blend_channel(pixel.buf@[3], pixel.buf@[1] as int, old(self).buf@[1] as int),
            final(self).buf@[2] == spec_blend_channel(pixel.buf@[3], pixel.buf@[2] as int, old(self).buf@[2] as int),
            final(self).buf@[3] == spec_blend_channel(pixel.buf@[3], 255, old(self).buf@[3] as int),
    {
        proof {
            lemma_blend_channel_in_range(pixel.buf@[3], pixel.buf@[0], old(self).buf@[0]);
            lemma_blend_channel_in_range(pixel.buf@[3], pixel.buf@[1], old(self).buf@[1]);
            lemma_blend_channel_in_range(pixel.buf@[3], pixel.buf@[2], old(self).buf@[2]);
            lemma_blend_channel_in_range(pixel.buf@[3], 255, old(self).buf@[3]);
        }
        let alpha = pixel.buf[3] as u32;
        let r = ((alpha * (pixel.buf[0] as u32) + (255 - alpha) * (self.buf[0] as u32) + 254)
            / 255) as u8;
        let g = ((alpha * (pixel.buf[1] as u32) + (255 - alpha) * (self.buf[1] as u32) + 254)
            / 255) as u8;
        let b = ((alpha * (pixel.buf[2] as u32) + (255 - alpha) * (self.buf[2] as u32) + 254)
            / 255) as u8;
        let a = ((alpha * 255 + (255 - alpha) * (self.buf[3] as u32) + 254) / 255) as u8;
        self.buf.set(0, r);
        self.buf.set(1, g);
        self.buf.set(2, b);
        self.buf.set(3, a);
    }
}

/// One row of an image: a copy of `length` bytes of the image buffer.
pub struct Row {
    pub length: usize,
    pub buf: Vec<u8>,
}

impl Row {
    /// Well-formed: the recorded length matches the bytes held.
    pub open spec fn wf(self) -> bool {
        self.buf@.len() == self.length
    }

    /// The four bytes of the pixel at `index`, or `None` when the row has no
    /// such pixel.
    pub fn get_pixel(&self, index: usize) -> (r: Option<Pixel>)
        ensures
            r is Some <==> index * 4 + 4 <= self.buf@.len(),
            r is Some ==> r->Some_0.wf() && r->Some_0.buf@ == self.buf@.subrange(
                index * 4,
                index * 4 + 4,
            ),
    {
        if self.buf.len() < 4 || index > (self.buf.len() - 4) / 4 {
            proof {
                if self.buf@.len() >= 4 {
                    assert(index * 4 >= ((self.buf@.len() - 4) / 4 + 1) * 4) by (nonlinear_arith)
                        requires
                            index >= (self.buf@.len() - 4) as int / 4 + 1,
                    ;
                }
            }
            return None;
        }
        proof {
            assert(index * 4 + 4 <= self.buf@.len()) by (nonlinear_arith)
                requires
                    index <= (self.buf@.len() - 4) as int / 4,
                    self.buf@.len() >= 4,
            ;
        }
        let start = index * 4;
        let mut bytes: Vec<u8> = Vec::new();
        bytes.push(self.buf[start]);
        bytes.push(self.buf[start + 1]);
        bytes.push(self.buf[start + 2]);
        bytes.push(self.buf[start + 3]);
        proof {
            assert(bytes@ =~= self.buf@.subrange(index * 4, index * 4 + 4));
        }
        Some(Pixel { buf: bytes })
    }
}

/// A raster image: a width, a height, a format name, and a flat buffer of
/// red, green, blue, alpha bytes in row-major order.
pub struct Image {
    pub width: usize,
    pub height: usize,
    pub format: String,
    pub buf: Vec<u8>,
}

impl Image {
    /// Well-formed: the buffer holds exactly four bytes per pixel, and the
    /// byte counts fit the machine word.
    pub open spec fn wf(self) -> bool {
        &&& self.buf@.len() == self.width * self.height * 4
        &&& self.width * self.height * 4 <= usize::MAX
        &&& self.width * 4 <= usize::MAX
    }

    /// Create an all-zero image of the given size.
    pub fn new(width: usize, height: usize, format: String) -> (img: Image)
        requires
            width * height * 4 <= usize::MAX,
            width * 4 <= usize::MAX,
        ensures
            img.wf(),
            img.width == width,
            img.height == height,
            img.format == format,
            img.buf@ == Seq::new((width * height * 4) as nat, |i: int| 0u8),
    {
        proof {
            assert(width * height <= usize::MAX && width * height >= 0) by (nonlinear_arith)
                requires
                    width * height * 4 <= usize::MAX,
                    width >= 0,
                    height >= 0,
            ;
        }
        let n = width * height * 4;
        let buf = vec![0u8; n];
        proof {
            assert(buf@ =~= Seq::new((width * height * 4) as nat, |i: int| 0u8));
        }
        Image { width, height, format, buf }
    }

    /// A copy of row `index` of the image: `width · 4` bytes starting at
    /// byte `index · width · 4`. `None` when the image has no such row.
    pub fn get_row(&self, index: usize) -> (r: Option<Row>)
        requires
            self.wf(),
        ensures
            r is Some <==> (self.width == 0 || index < self.height),
            r is Some ==> r->Some_0.wf() && r->Some_0.length == self.width * 4
                && r->Some_0.buf@ == self.buf@.subrange(
                index * self.width * 4,
                index * self.width * 4 + self.width * 4,
            ),
    {
        let row_bytes = self.width * 4;
        if row_bytes == 0 {
            proof {
                assert(index * self.width * 4 == 0) by (nonlinear_arith)
                    requires
                        self.width == 0,
                ;
            }
            return Some(Row { length: 0, buf: Vec::new() });
        }
        if index >= self.height {
            return None;
        }
        proof {
            assert(index * self.width * 4 + self.width * 4 <= self.height * self.width * 4
                && index * self.width * 4 == index * (self.width * 4)
                && self.height * self.width * 4 == self.width * self.height * 4)
                by (nonlinear_arith)
                requires
                    index < self.height,
                    self.width >= 0,
                    self.height >= 0,
            ;
        }
        let start = index * row_bytes;
        let buf_len = self.buf.len();
        let mut bytes: Vec<u8> = Vec::new();
        let mut k: usize = 0;
        while k < row_bytes
            invariant
                k <= row_bytes,
                row_bytes == self.width * 4,
                start == index * self.width * 4,
                buf_len == self.buf@.len(),
                start + row_bytes <= buf_len,
                bytes@ =~= self.buf@.subrange(start as int, start + k),
            decreases row_bytes - k,
        {
            bytes.push(self.buf[start + k]);
            k = k + 1;
        }
        Some(Row { length: row_bytes, buf: bytes })
    }

    /// The image's pixels as packed color integers, row-major: each pixel's
    /// red, green, blue, alpha bytes become one packed ARGB value.
    pub fn as_color_ints(&self) -> (r: Vec<i32>)
        requires
            self.wf(),
        ensures
            r@.len() == self.width * self.height,
            forall|i: int|
                0 <= i < r@.len() ==> r@[i] == spec_argb(
                    self.buf@[4 * i + 3],
                    self.buf@[4 * i],
                    self.buf@[4 * i + 1],
                    self.buf@[4 * i + 2],
                ),
    {
        proof {
            assert(self.width * self.height * 4 == (self.width * self.height) * 4
                && self.width * self.height >= 0) by (nonlinear_arith)
                requires
                    self.width >= 0,
                    self.height >= 0,
            ;
        }
        let n = self.width * self.height;
        let mut out: Vec<i32> = Vec::new();
        let mut i: usize = 0;
        while i < n
            invariant
                i <= n,
                n == self.width * self.height,
                self.buf@.len() == 4 * n,
                4 * n <= usize::MAX,
                out@.len() == i,
                forall|j: int|
                    0 <= j < i ==> out@[j] == spec_argb(
                        self.buf@[4 * j + 3],
                        self.buf@[4 * j],
                        self.buf@[4 * j + 1],
                        self.buf@[4 * j + 2],
                    ),
            decreases n - i,
        {
            let base = 4 * i;
            let c = crate::color::Color::argb(
                self.buf[base + 3],
                self.buf[base],
                self.buf[base + 1],
                self.buf[base + 2],
            );
            out.push(c.0);
            i = i + 1;
        }
        out
    }
}

impl From<(usize, usize, Vec<u8>)> for Image {
    /// Wrap an existing byte buffer as an image of the given width and
    /// height, with an empty format name.
    fn from(data: (usize, usize, Vec<u8>)) -> Image {
        Image { width: data.0, height: data.1, format: String::new(), buf: data.2 }
    }
}

impl vstd::std_specs::convert::FromSpecImpl<(usize, usize, Vec<u8>)> for Image {
    open spec fn obeys_from_spec() -> bool {
        false
    }

    open spec fn from_spec(t: (usize, usize, Vec<u8>)) -> Image {
        Image {
            width: t.0,
            height: t.1,
            format: vstd::pervasive::arbitrary(),
            buf: t.2,
        }
    }
}

} // verus!
