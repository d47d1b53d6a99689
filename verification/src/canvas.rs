//! Drawing objects onto a canvas image.

use vstd::prelude::*;

use crate::image::Image;

verus! {

/// The byte position of channel `c` of the pixel at column `x` of row `y`
/// in a row-major image of width `w`.
pub open spec fn pixel_index(w: int, x: int, y: int, c: int) -> int {
    4 * (y * w + x) + c
}

/// Distinct in-range pixel coordinates have distinct byte positions.
proof fn lemma_pixel_index_unique(w: int, x1: int, y1: int, c1: int, x2: int, y2: int, c2: int)
    by (nonlinear_arith)
    requires
        0 <= x1 < w,
        0 <= x2 < w,
        0 <= c1 < 4,
        0 <= c2 < 4,
        0 <= y1,
        0 <= y2,
        pixel_index(w, x1, y1, c1) == pixel_index(w, x2, y2, c2),
    ensures
        x1 == x2,
        y1 == y2,
        c1 == c2,
{
}

/// In-range pixel coordinates stay within the image buffer.
proof fn lemma_pixel_index_bound(w: int, h: int, x: int, y: int, c: int)
    by (nonlinear_arith)
    requires
        0 <= x < w,
        0 <= y < h,
        0 <= c < 4,
    ensures
        0 <= pixel_index(w, x, y, c) < 4 * (w * h),
        0 <= pixel_index(w, x, y, c) < w * h * 4,
{
}

/// Write the four channel bytes of one pixel.
fn write_pixel(
    buf: &mut Vec<u8>,
    w: usize,
    h: usize,
    x: usize,
    y: usize,
    b0: u8,
    b1: u8,
    b2: u8,
    b3: u8,
)
    requires
        x < w,
        y < h,
        old(buf)@.len() == w * h * 4,
        w * h * 4 <= usize::MAX,
    ensures
        final(buf)@.len() == old(buf)@.len(),
        forall|xx: int, yy: int, cc: int|
            0 <= xx < w && 0 <= yy < h && 0 <= cc < 4 ==> final(buf)@[#[trigger] pixel_index(
                w as int,
                xx,
                yy,
                cc,
            )] == (if xx == x && yy == y {
                if cc == 0 {
                    b0
                } else if cc == 1 {
                    b1
                } else if cc == 2 {
                    b2
                } else {
                    b3
                }
            } else {
                old(buf)@[pixel_index(w as int, xx, yy, cc)]
            }),
{
    proof {
        lemma_pixel_index_bound(w as int, h as int, x as int, y as int, 0);
        lemma_pixel_index_bound(w as int, h as int, x as int, y as int, 3);
        assert(4 * (w as int * h as int) == w as int * h as int * 4) by (nonlinear_arith);
    }
    let base = 4 * (y * w + x);
    buf.set(base, b0);
    buf.set(base + 1, b1);
    buf.set(base + 2, b2);
    buf.set(base + 3, b3);
    proof {
        assert forall|xx: int, yy: int, cc: int|
            0 <= xx < w && 0 <= yy < h && 0 <= cc < 4 implies final(buf)@[
            #[trigger] pixel_index(w as int, xx, yy, cc)] == (if xx == x && yy == y {
            if cc == 0 {
                b0
            } else if cc == 1 {
                b1
            } else if cc == 2 {
                b2
            } else {
                b3
            }
        } else {
            old(buf)@[pixel_index(w as int, xx, yy, cc)]
        }) by {
            lemma_pixel_index_bound(w as int, h as int, xx, yy, cc);
            assert(4 * (w as int * h as int) == w as int * h as int * 4) by (nonlinear_arith);
            if xx == x && yy == y {
                assert(pixel_index(w as int, xx, yy, cc) == base + cc);
            } else {
                if pixel_index(w as int, xx, yy, cc) == base {
                    lemma_pixel_index_unique(w as int, xx, yy, cc, x as int, y as int, 0);
                }
                if pixel_index(w as int, xx, yy, cc) == base + 1 {
                    lemma_pixel_index_unique(w as int, xx, yy, cc, x as int, y as int, 1);
                }
                if pixel_index(w as int, xx, yy, cc) == base + 2 {
                    lemma_pixel_index_unique(w as int, xx, yy, cc, x as int, y as int, 2);
                }
                if pixel_index(w as int, xx, yy, cc) == base + 3 {
                    lemma_pixel_index_unique(w as int, xx, yy, cc, x as int, y as int, 3);
                }
            }
        }
    }
}

/// A canvas: an image that objects are drawn onto.
pub struct Canvas {
    pub image: Image,
}

/// Drawing an object of type `T` onto a canvas at an origin.
pub trait Draw<T> {
    /// What a canvas and object must satisfy before drawing.
    spec fn draw_requires(&self, object: &T, origin: (i32, i32)) -> bool;

    /// Draw `object` with its top-left corner at `origin`, consuming and
    /// returning the canvas.
    fn draw(self, object: T, origin: (i32, i32)) -> Self
        requires
            self.draw_requires(&object, origin),
    ;
}

impl Canvas {
    /// Whether canvas column `x` and row `y` fall under the object drawn at
    /// `origin`.
    pub open spec fn spec_covered(object: Image, origin: (i32, i32), x: int, y: int) -> bool {
        &&& origin.0 <= x < origin.0 + object.width
        &&& origin.1 <= y < origin.1 + object.height
    }

    /// Draw an image onto the canvas with its top-left corner at `origin`,
    /// clipping it to the canvas: every canvas byte under the object is
    /// replaced by the object's byte, and every other byte is unchanged.
    pub fn draw_image(self, object: Image, origin: (i32, i32)) -> (r: Canvas)
        requires
            self.image.wf(),
            object.wf(),
            self.image.width <= 0x7fff_ffff,
            self.image.height <= 0x7fff_ffff,
            object.width <= 0x7fff_ffff,
            object.height <= 0x7fff_ffff,
        ensures
            r.image.wf(),
            r.image.width == self.image.width,
            r.image.height == self.image.height,
            r.image.format == self.image.format,
            forall|xx: int, yy: int, cc: int|
                0 <= xx < self.image.width && 0 <= yy < self.image.height && 0 <= cc < 4
                    ==> r.image.buf@[#[trigger] pixel_index(self.image.width as int, xx, yy, cc)]
                    == (if Self::spec_covered(object, origin, xx, yy) {
                    object.buf@[pixel_index(
                        object.width as int,
                        xx - origin.0,
                        yy - origin.1,
                        cc,
                    )]
                } else {
                    self.image.buf@[pixel_index(self.image.width as int, xx, yy, cc)]
                }),
    {
        let Image { width: w, height: h, format, buf: mut canvas_buf } = self.image;
        let ghost orig = canvas_buf@;
        let oxl = origin.0 as i64;
        let oyl = origin.1 as i64;
        let x0l: i64 = if oxl > 0 {
            oxl
        } else {
            0
        };
        let x1l: i64 = if oxl + (object.width as i64) < (w as i64) {
            oxl + (object.width as i64)
        } else {
            w as i64
        };
        let y0l: i64 = if oyl > 0 {
            oyl
        } else {
            0
        };
        let y1l: i64 = if oyl + (object.height as i64) < (h as i64) {
            oyl + (object.height as i64)
        } else {
            h as i64
        };
        if x0l >= x1l || y0l >= y1l {
            proof {
                assert forall|xx: int, yy: int| 0 <= xx < w && 0 <= yy < h implies !Self::spec_covered(
                    object,
                    origin,
                    xx,
                    yy,
                ) by {}
            }
            return Canvas { image: Image { width: w, height: h, format, buf: canvas_buf } };
        }
        let x0 = x0l as usize;
        let x1 = x1l as usize;
        let y0 = y0l as usize;
        let y1 = y1l as usize;
        let mut y = y0;
        while y < y1
            invariant
                y0 <= y <= y1,
                x0l == if origin.0 > 0 {
                    origin.0 as int
                } else {
                    0
                },
                x1l == if origin.0 + object.width < w {
                    origin.0 + object.width
                } else {
                    w as int
                },
                y0l == if origin.1 > 0 {
                    origin.1 as int
                } else {
                    0
                },
                y1l == if origin.1 + object.height < h {
                    origin.1 + object.height
                } else {
                    h as int
                },
                x0 == x0l && x1 == x1l && y0 == y0l && y1 == y1l,
                x0l < x1l <= w,
                y0l < y1l <= h,
                w <= 0x7fff_ffff,
                h <= 0x7fff_ffff,
                oyl == origin.1 as int,
                oxl == origin.0 as int,
                object.wf(),
                object.width <= 0x7fff_ffff,
                object.height <= 0x7fff_ffff,
                canvas_buf@.len() == orig.len(),
                orig.len() == w * h * 4,
                w * h * 4 <= usize::MAX,
                forall|xx: int, yy: int, cc: int|
                    0 <= xx < w && 0 <= yy < h && 0 <= cc < 4 ==> canvas_buf@[
                    #[trigger] pixel_index(w as int, xx, yy, cc)] == (if Self::spec_covered(
                        object,
                        origin,
                        xx,
                        yy,
                    ) && yy < y {
                        object.buf@[pixel_index(
                            object.width as int,
                            xx - origin.0,
                            yy - origin.1,
                            cc,
                        )]
                    } else {
                        orig[pixel_index(w as int, xx, yy, cc)]
                    }),
            decreases y1 - y,
        {
            let src_y = ((y as i64) - oyl) as usize;
            let mut x = x0;
            while x < x1
                invariant
                    x0 <= x <= x1,
                    y0 <= y < y1,
                    src_y == y - origin.1,
                    src_y < object.height,
                    x0l == if origin.0 > 0 {
                        origin.0 as int
                    } else {
                        0
                    },
                    x1l == if origin.0 + object.width < w {
                        origin.0 + object.width
                    } else {
                        w as int
                    },
                    y0l == if origin.1 > 0 {
                        origin.1 as int
                    } else {
                        0
                    },
                    y1l == if origin.1 + object.height < h {
                        origin.1 + object.height
                    } else {
                        h as int
                    },
                    x0 == x0l && x1 == x1l && y0 == y0l && y1 == y1l,
                    x0l < x1l <= w,
                    y0l < y1l <= h,
                    w <= 0x7fff_ffff,
                    h <= 0x7fff_ffff,
                    oyl == origin.1 as int,
                    oxl == origin.0 as int,
                    object.wf(),
                    object.width <= 0x7fff_ffff,
                    object.height <= 0x7fff_ffff,
                    canvas_buf@.len() == orig.len(),
                    orig.len() == w * h * 4,
                    w * h * 4 <= usize::MAX,
                    forall|xx: int, yy: int, cc: int|
                        0 <= xx < w && 0 <= yy < h && 0 <= cc < 4 ==> canvas_buf@[
                        #[trigger] pixel_index(w as int, xx, yy, cc)] == (if Self::spec_covered(
                            object,
                            origin,
                            xx,
                            yy,
                        ) && (yy < y || (yy == y && xx < x)) {
                            object.buf@[pixel_index(
                                object.width as int,
                                xx - origin.0,
                                yy - origin.1,
                                cc,
                            )]
                        } else {
                            orig[pixel_index(w as int, xx, yy, cc)]
                        }),
                decreases x1 - x,
            {
                let src_x = ((x as i64) - oxl) as usize;
                proof {
                    lemma_pixel_index_bound(
                        object.width as int,
                        object.height as int,
                        src_x as int,
                        src_y as int,
                        3,
                    );
                    assert(4 * (object.width as int * object.height as int) == object.width as int
                        * object.height as int * 4) by (nonlinear_arith);
                    assert((src_y as int) * (object.width as int) * 4 + 4 * (src_x as int) + 3 < object.width
                        * object.height * 4) by (nonlinear_arith)
                        requires
                            0 <= src_x < object.width,
                            0 <= src_y < object.height,
                    ;
                }
                let src_base = 4 * (src_y * object.width + src_x);
                let b0 = object.buf[src_base];
                let b1 = object.buf[src_base + 1];
                let b2 = object.buf[src_base + 2];
                let b3 = object.buf[src_base + 3];
                let ghost before = canvas_buf@;
                write_pixel(&mut canvas_buf, w, h, x, y, b0, b1, b2, b3);
                proof {
                    assert(src_base + 0 == pixel_index(object.width as int, src_x as int, src_y as int, 0));
                    assert(src_base + 1 == pixel_index(object.width as int, src_x as int, src_y as int, 1));
                    assert(src_base + 2 == pixel_index(object.width as int, src_x as int, src_y as int, 2));
                    assert(src_base + 3 == pixel_index(object.width as int, src_x as int, src_y as int, 3));
                }
                x = x + 1;
            }
            y = y + 1;
        }
        Canvas { image: Image { width: w, height: h, format, buf: canvas_buf } }
    }
}

impl Draw<Image> for Canvas {
    open spec fn draw_requires(&self, object: &Image, origin: (i32, i32)) -> bool {
        &&& self.image.wf()
        &&& object.wf()
        &&& self.image.width <= 0x7fff_ffff
        &&& self.image.height <= 0x7fff_ffff
        &&& object.width <= 0x7fff_ffff
        &&& object.height <= 0x7fff_ffff
    }

    fn draw(self, object: Image, origin: (i32, i32)) -> Self {
        self.draw_image(object, origin)
    }
}

} // verus!
