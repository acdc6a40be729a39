//! The integer core of the software rasterizer that writes `Argb8888` pixels
//! into a byte slice borrowed from a `wl_shm` buffer: colors, opaque clears and
//! rectangle fills, and clipped single-pixel access for the host's
//! anti-aliased drawing.

use vstd::prelude::*;
use vstd::arithmetic::div_mod::{lemma_fundamental_div_mod, lemma_fundamental_div_mod_converse};
use vstd::arithmetic::mul::lemma_mul_inequality;

verus! {

/// A color as `0xAARRGGBB`. The alpha byte is informational; compositing uses
/// an explicit coverage argument so callers control translucency per draw.
#[derive(Debug, Clone, Copy, PartialEq, Eq, Structural)]
pub struct Color(pub u32);

/// The `(alpha, red, green, blue)` bytes of `0xAARRGGBB`.
pub open spec fn color_parts(v: u32) -> (u8, u8, u8, u8) {
    (
        (v / 0x100_0000) as u8,
        ((v / 0x1_0000) % 0x100) as u8,
        ((v / 0x100) % 0x100) as u8,
        (v % 0x100) as u8,
    )
}

/// Byte `k` of a pixel in memory order B, G, R, A.
pub open spec fn channel(c: Color, k: int) -> u8 {
    let (a, r, g, b) = color_parts(c.0);
    if k == 0 {
        b
    } else if k == 1 {
        g
    } else if k == 2 {
        r
    } else {
        a
    }
}

impl Color {
    /// An opaque color from its red, green and blue bytes.
    pub fn rgb(r: u8, g: u8, b: u8) -> (c: Self)
        ensures
            c.0 == 0xFF00_0000 + r * 0x1_0000 + g * 0x100 + b,
    {
        let v: u32 = 0xFF00_0000 | ((r as u32) << 16) | ((g as u32) << 8) | b as u32;
        assert(v == 0xFF00_0000 + r * 0x1_0000 + g * 0x100 + b) by (bit_vector)
            requires
                v == 0xFF00_0000u32 | ((r as u32) << 16) | ((g as u32) << 8) | b as u32,
        ;
        Color(v)
    }

    /// The `(alpha, red, green, blue)` bytes.
    pub fn parts(self) -> (p: (u8, u8, u8, u8))
        ensures
            p == color_parts(self.0),
    {
        let v = self.0;
        let a = (v >> 24) as u8;
        let r = (v >> 16) as u8;
        let g = (v >> 8) as u8;
        let b = v as u8;
        assert(a == (v / 0x100_0000) as u8 && r == ((v / 0x1_0000) % 0x100) as u8 && g == ((v / 0x100)
            % 0x100) as u8 && b == (v % 0x100) as u8) by (bit_vector)
            requires
                a == (v >> 24) as u8,
                r == (v >> 16) as u8,
                g == (v >> 8) as u8,
                b == v as u8,
        ;
        (a, r, g, b)
    }
}

/// An opaque color reads back as the bytes it was made from.
pub proof fn law_rgb_parts_roundtrip(r: u8, g: u8, b: u8)
    ensures
        color_parts((0xFF00_0000 + r * 0x1_0000 + g * 0x100 + b) as u32) == (0xFFu8, r, g, b),
{
    let v: u32 = (0xFF00_0000 + r * 0x1_0000 + g * 0x100 + b) as u32;
    assert((v / 0x100_0000) as u8 == 0xFFu8 && ((v / 0x1_0000) % 0x100) as u8 == r && ((v / 0x100)
        % 0x100) as u8 == g && (v % 0x100) as u8 == b) by (bit_vector)
        requires
            v == (0xFF00_0000 + r * 0x1_0000 + g * 0x100 + b) as u32,
    ;
}

/// A mutable view over a tightly-packed `Argb8888` framebuffer.
///
/// `wl_shm`'s `Argb8888` is 32-bit little-endian, i.e. bytes laid out B, G,
/// R, A. We write that order explicitly so the code is endianness-correct.
pub struct Canvas<'a> {
    pub buf: &'a mut [u8],
    pub width: usize,
    pub height: usize,
}

/// Byte `i` of a `width`-wide framebuffer lies in the pixel rectangle
/// `[x0, x1) x [y0, y1)`.
pub open spec fn in_rect(i: int, width: int, x0: int, x1: int, y0: int, y1: int) -> bool {
    let p = i / 4;
    x0 <= p % width < x1 && y0 <= p / width < y1
}

/// The clipped horizontal or vertical start of a fill: `max(v, 0)`.
pub open spec fn clip_start(v: int) -> int {
    if v > 0 { v } else { 0 }
}

/// The clipped end of a fill: `min(max(v, 0), lim)`.
pub open spec fn clip_end(v: int, lim: int) -> int {
    let e = if v > 0 { v } else { 0 };
    if e < lim { e } else { lim }
}

/// Pixel `(x, y)` of a `w x h` framebuffer occupies bytes `4(yw + x) ..
/// 4(yw + x) + 4`, and that pixel is the one those bytes decode to.
pub proof fn lemma_pixel_index(w: int, h: int, x: int, y: int)
    requires
        0 <= x < w,
        0 <= y < h,
    ensures
        (y * w + x) * 4 + 4 <= w * h * 4,
        (y * w + x) % w == x,
        (y * w + x) / w == y,
{
    lemma_fundamental_div_mod_converse(y * w + x, w, y, x);
    lemma_mul_inequality(y + 1, h, w);
    assert((y + 1) * w == y * w + w) by (nonlinear_arith);
    assert(h * w == w * h) by (nonlinear_arith);
}

impl<'a> Canvas<'a> {
    /// The buffer holds at least `width * height` pixels.
    pub open spec fn wf(&self) -> bool {
        self.width * self.height * 4 <= self.buf@.len()
    }

    /// The current framebuffer bytes.
    pub open spec fn bytes(&self) -> Seq<u8> {
        self.buf@
    }

    /// `buf` must be at least `width * height * 4` bytes.
    pub fn new(buf: &'a mut [u8], width: usize, height: usize) -> (c: Self)
        requires
            width * height * 4 <= old(buf)@.len(),
        ensures
            c.wf(),
            c.buf@ == old(buf)@,
            final(buf)@ == final(c.buf)@,
            c.width == width,
            c.height == height,
    {
        Canvas { buf, width, height }
    }

    pub fn width(&self) -> (r: usize)
        ensures
            r == self.width,
    {
        self.width
    }

    pub fn height(&self) -> (r: usize)
        ensures
            r == self.height,
    {
        self.height
    }

    /// Fill the whole buffer, every complete 4-byte pixel of it, with one
    /// color.
    pub fn clear(&mut self, c: Color)
        ensures
            final(self).width == old(self).width,
            final(self).height == old(self).height,
            final(self).buf@.len() == old(self).buf@.len(),
            forall|i: int|
                0 <= i < old(self).buf@.len() ==> #[trigger] final(self).buf@[i] == (if i < (old(
                    self,
                ).buf@.len() / 4) * 4 {
                    channel(c, i % 4)
                } else {
                    old(self).buf@[i]
                }),
    {
        let (a, r, g, b) = c.parts();
        let n = self.buf.len() / 4;
        let ghost len = self.buf@.len();
        let blen = self.buf.len();
        let mut p: usize = 0;
        while p < n
            invariant
                n == len / 4,
                len <= usize::MAX,
                p <= n,
                self.buf@.len() == len,
                self.width == old(self).width,
                self.height == old(self).height,
                (a, r, g, b) == color_parts(c.0),
                forall|i: int|
                    0 <= i < len ==> #[trigger] self.buf@[i] == (if i < p * 4 {
                        channel(c, i % 4)
                    } else {
                        old(self).buf@[i]
                    }),
            decreases n - p,
        {
            assert(p * 4 + 4 <= len);
            let i = p * 4;
            self.buf[i] = b;
            self.buf[i + 1] = g;
            self.buf[i + 2] = r;
            self.buf[i + 3] = a;
            p = p + 1;
        }
    }

    /// Fill an axis-aligned rectangle with an opaque color, clipped to the
    /// canvas.
    pub fn fill_rect(&mut self, x: i32, y: i32, w: i32, h: i32, c: Color)
        requires
            old(self).wf(),
            i32::MIN <= x + w <= i32::MAX,
            i32::MIN <= y + h <= i32::MAX,
        ensures
            final(self).wf(),
            final(self).width == old(self).width,
            final(self).height == old(self).height,
            final(self).buf@.len() == old(self).buf@.len(),
            forall|i: int|
                0 <= i < old(self).buf@.len() ==> #[trigger] final(self).buf@[i] == (if in_rect(
                    i,
                    old(self).width as int,
                    clip_start(x as int),
                    clip_end(x + w, old(self).width as int),
                    clip_start(y as int),
                    clip_end(y + h, old(self).height as int),
                ) {
                    channel(c, i % 4)
                } else {
                    old(self).buf@[i]
                }),
    {
        let width = self.width;
        let height = self.height;
        let x0: usize = if x > 0 { x as usize } else { 0 };
        let y0: usize = if y > 0 { y as usize } else { 0 };
        let xe: i32 = x + w;
        let ye: i32 = y + h;
        let x1: usize = if xe > 0 {
            if (xe as usize) < width { xe as usize } else { width }
        } else {
            0
        };
        let y1: usize = if ye > 0 {
            if (ye as usize) < height { ye as usize } else { height }
        } else {
            0
        };
        let (a, r, g, b) = c.parts();
        let ghost len = self.buf@.len();
        let blen = self.buf.len();
        let ghost old_buf = self.buf@;
        let mut yy: usize = y0;
        while yy < y1
            invariant
                self.buf@.len() == len,
                len <= usize::MAX,
                self.width == width,
                self.height == height,
                width * height * 4 <= len,
                y0 <= yy,
                y1 <= height,
                x1 <= width,
                x0 == clip_start(x as int),
                x1 == clip_end(x + w, width as int),
                y0 == clip_start(y as int),
                y1 == clip_end(y + h, height as int),
                old_buf == old(self).buf@,
                (a, r, g, b) == color_parts(c.0),
                forall|i: int|
                    0 <= i < len ==> #[trigger] self.buf@[i] == (if in_rect(
                        i,
                        width as int,
                        x0 as int,
                        x1 as int,
                        y0 as int,
                        y1 as int,
                    ) && (i / 4) / (width as int) < yy {
                        channel(c, i % 4)
                    } else {
                        old_buf[i]
                    }),
            decreases y1 - yy,
        {
            let mut xx: usize = x0;
            while xx < x1
                invariant
                    self.buf@.len() == len,
                    len <= usize::MAX,
                    self.width == width,
                    self.height == height,
                    width * height * 4 <= len,
                    x0 <= xx,
                    y0 <= yy < y1,
                    y1 <= height,
                    x1 <= width,
                    (a, r, g, b) == color_parts(c.0),
                    forall|i: int|
                        0 <= i < len ==> #[trigger] self.buf@[i] == (if in_rect(
                            i,
                            width as int,
                            x0 as int,
                            x1 as int,
                            y0 as int,
                            y1 as int,
                        ) && ((i / 4) / (width as int) < yy || ((i / 4) / (width as int) == yy && (i
                            / 4) % (width as int) < xx)) {
                            channel(c, i % 4)
                        } else {
                            old_buf[i]
                        }),
                decreases x1 - xx,
            {
                proof {
                    lemma_pixel_index(width as int, height as int, xx as int, yy as int);
                    assert(yy * width <= (yy * width + xx) * 4);
                }
                let row = yy * width;
                let i = (row + xx) * 4;
                let ghost before = self.buf@;
                self.buf[i] = b;
                self.buf[i + 1] = g;
                self.buf[i + 2] = r;
                self.buf[i + 3] = a;
                proof {
                    let q = (yy * width + xx) as int;
                    assert forall|j: int| 0 <= j < len implies #[trigger] self.buf@[j] == (if in_rect(
                        j,
                        width as int,
                        x0 as int,
                        x1 as int,
                        y0 as int,
                        y1 as int,
                    ) && ((j / 4) / (width as int) < yy || ((j / 4) / (width as int) == yy && (j / 4)
                        % (width as int) < xx + 1)) {
                        channel(c, j % 4)
                    } else {
                        old_buf[j]
                    }) by {
                        let p = j / 4;
                        lemma_fundamental_div_mod(p, width as int);
                        if i <= j < i + 4 {
                            assert(p == q);
                        } else {
                            assert(p != q);
                            if p / (width as int) == yy && p % (width as int) == xx {
                                assert(p == (width as int) * (p / (width as int)) + p % (width as int));
                                assert((width as int) * (yy as int) == (yy as int) * (width as int)) by (nonlinear_arith);
                                assert(false);
                            }
                        }
                    }
                }
                xx = xx + 1;
            }
            proof {
                assert forall|j: int| 0 <= j < len implies #[trigger] self.buf@[j] == (if in_rect(
                    j,
                    width as int,
                    x0 as int,
                    x1 as int,
                    y0 as int,
                    y1 as int,
                ) && (j / 4) / (width as int) < yy + 1 {
                    channel(c, j % 4)
                } else {
                    old_buf[j]
                }) by {
                }
            }
            yy = yy + 1;
        }
        proof {
            assert forall|j: int| 0 <= j < len implies #[trigger] self.buf@[j] == (if in_rect(
                j,
                width as int,
                x0 as int,
                x1 as int,
                y0 as int,
                y1 as int,
            ) {
                channel(c, j % 4)
            } else {
                old_buf[j]
            }) by {
            }
        }
    }

    /// The `(blue, green, red)` bytes of pixel `(x, y)`, or `None` off the
    /// canvas.
    pub fn pixel(&self, x: i32, y: i32) -> (r: Option<(u8, u8, u8)>)
        requires
            self.wf(),
        ensures
            (0 <= x < self.width && 0 <= y < self.height) ==> r == Some(
                (
                    self.bytes()[(y * self.width + x) * 4],
                    self.bytes()[(y * self.width + x) * 4 + 1],
                    self.bytes()[(y * self.width + x) * 4 + 2],
                ),
            ),
            !(0 <= x < self.width && 0 <= y < self.height) ==> r is None,
    {
        if x < 0 || y < 0 || x as usize >= self.width || y as usize >= self.height {
            return None;
        }
        let blen = self.buf.len();
        proof {
            lemma_pixel_index(self.width as int, self.height as int, x as int, y as int);
            assert((y as usize) * self.width <= ((y as usize) * self.width + (x as usize)) * 4);
        }
        let i = (y as usize * self.width + x as usize) * 4;
        Some((self.buf[i], self.buf[i + 1], self.buf[i + 2]))
    }

    /// Write the `(blue, green, red)` bytes of pixel `(x, y)` with an opaque
    /// alpha; pixels off the canvas are left alone.
    pub fn set_pixel(&mut self, x: i32, y: i32, b: u8, g: u8, r: u8)
        requires
            old(self).wf(),
        ensures
            final(self).wf(),
            final(self).width == old(self).width,
            final(self).height == old(self).height,
            (0 <= x < old(self).width && 0 <= y < old(self).height) ==> final(self).buf@ == old(
                self,
            ).buf@.update((y * old(self).width + x) * 4, b).update(
                (y * old(self).width + x) * 4 + 1,
                g,
            ).update((y * old(self).width + x) * 4 + 2, r).update(
                (y * old(self).width + x) * 4 + 3,
                0xFFu8,
            ),
            !(0 <= x < old(self).width && 0 <= y < old(self).height) ==> final(self).buf@ == old(
                self,
            ).buf@,
    {
        if x < 0 || y < 0 || x as usize >= self.width || y as usize >= self.height {
            return;
        }
        let blen = self.buf.len();
        proof {
            lemma_pixel_index(self.width as int, self.height as int, x as int, y as int);
            assert((y as usize) * self.width <= ((y as usize) * self.width + (x as usize)) * 4);
        }
        let i = (y as usize * self.width + x as usize) * 4;
        self.buf[i] = b;
        self.buf[i + 1] = g;
        self.buf[i + 2] = r;
        self.buf[i + 3] = 0xFF;
    }
}

} // verus!
