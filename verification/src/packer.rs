use crate::canvas::{spec_luminance, Canvas};
use vstd::arithmetic::div_mod::{lemma_fundamental_div_mod, lemma_mod_bound};
use vstd::prelude::*;

verus! {

/// Bytes per packed row: `ceil(width / 8)`. Rows never share a byte.
pub open spec fn spec_row_stride(w: nat) -> nat {
    (w + 7) / 8
}

/// MSB-first bit order: the `i`-th pixel of a byte group occupies bit
/// position `7 - i` of the byte.
pub open spec fn spec_bit(byte: u8, i: int) -> bool {
    (byte >> ((7 - i) as u8)) & 1u8 == 1u8
}

/// A monochrome, row-padded, bit-packed bitmap. A set bit is "ink"
/// (a dark pixel), a clear bit is "paper".
pub struct PackedBitmap {
    pub width: u32,
    pub height: u32,
    pub bytes: Vec<u8>,
}

impl PackedBitmap {
    /// Well-formed: exactly `ceil(width/8)` bytes for each row.
    pub open spec fn wf(self) -> bool {
        self.bytes@.len() == spec_row_stride(self.width as nat) * self.height
    }

    /// The packed bit for column `x` of row `y`: it lives in byte
    /// `y * row_stride + x / 8` at bit position `7 - (x % 8)`. Columns
    /// at or past `width`, up to the row's byte boundary, are padding.
    pub open spec fn spec_bit_at(self, x: int, y: int) -> bool {
        spec_bit(self.bytes@[y * spec_row_stride(self.width as nat) + x / 8], x % 8)
    }

    /// Read one packed bit. Columns from `width` up to the row's byte
    /// boundary read the padding bits.
    pub fn bit_at(&self, x: u32, y: u32) -> (r: bool)
        requires
            self.wf(),
            x < 8 * spec_row_stride(self.width as nat),
            y < self.height,
        ensures
            r == self.spec_bit_at(x as int, y as int),
    {
        let stride: usize = row_stride(self.width);
        let n: usize = self.bytes.len();
        let b: usize = (x / 8) as usize;
        proof {
            lemma_fundamental_div_mod(x as int, 8);
            assert(b < stride);
            lemma_flat_index_bound(y as int, b as int, stride as int, self.height as int);
            assert(self.height * (stride as int) == (stride as int) * self.height)
                by (nonlinear_arith);
        }
        let idx: usize = (y as usize) * stride + b;
        let byte: u8 = self.bytes[idx];
        let sh: u8 = 7 - ((x % 8) as u8);
        proof {
            assert(sh == (7 - ((x as int) % 8)) as u8);
        }
        ((byte >> sh) & 1) == 1
    }
}

/// `p` is the packed form of canvas `c`: same dimensions, one bit per
/// pixel, set exactly when the pixel's luminance is strictly below the
/// ink threshold, and every padding bit at the end of a row clear.
pub open spec fn packs(c: Canvas, p: PackedBitmap) -> bool {
    &&& p.width == c.width
    &&& p.height == c.height
    &&& p.wf()
    &&& forall|x: int, y: int|
        0 <= x < c.width && 0 <= y < c.height ==> #[trigger] p.spec_bit_at(x, y) == c.spec_ink(
            x,
            y,
        )
    &&& forall|x: int, y: int|
        c.width <= x < 8 * spec_row_stride(c.width as nat) && 0 <= y < c.height ==> !(
        #[trigger] p.spec_bit_at(x, y))
}

proof fn lemma_bit_zero(i: u8)
    by (bit_vector)
    requires
        i < 8,
    ensures
        !spec_bit(0u8, i as int),
{
}

proof fn lemma_bit_or(b: u8, k: u8, i: u8)
    by (bit_vector)
    requires
        k < 8,
        i < 8,
    ensures
        spec_bit(b | (0x80u8 >> k), i as int) == (i == k || spec_bit(b, i as int)),
{
}

proof fn lemma_flat_index_bound(r: int, b: int, stride: int, rows: int)
    requires
        0 <= r < rows,
        0 <= b < stride,
    ensures
        0 <= r * stride + b,
        r * stride + b < rows * stride,
{
    assert(0 <= r * stride + b && r * stride + b < rows * stride) by (nonlinear_arith)
        requires
            0 <= r < rows,
            0 <= b < stride,
    ;
}

/// A column is "ink" if it exists (is left of `width`) and its pixel
/// is dark; columns at or past `width` count as paper.
spec fn spec_col_ink(c: Canvas, x: int, y: int) -> bool {
    x < c.width && c.spec_ink(x, y)
}

/// The first `rows` packed rows of `bytes` encode the canvas.
spec fn rows_packed(c: Canvas, bytes: Seq<u8>, stride: int, rows: int) -> bool {
    forall|r: int, b: int, i: int|
        0 <= r < rows && 0 <= b < stride && 0 <= i < 8 ==> #[trigger] spec_bit(
            bytes[r * stride + b],
            i,
        ) == spec_col_ink(c, 8 * b + i, r)
}

/// The first `upto` bytes of packed row `y` encode the canvas.
spec fn row_prefix_packed(c: Canvas, bytes: Seq<u8>, stride: int, y: int, upto: int) -> bool {
    forall|b: int, i: int|
        0 <= b < upto && 0 <= i < 8 ==> #[trigger] spec_bit(bytes[y * stride + b], i)
            == spec_col_ink(c, 8 * b + i, y)
}

/// Bytes per packed row of a bitmap `w` pixels wide.
pub fn row_stride(w: u32) -> (r: usize)
    ensures
        r == spec_row_stride(w as nat),
{
    proof {
        assert(((w as u64) + 7) / 8 <= 0x2000_0000);
    }
    (((w as u64) + 7) / 8) as usize
}

/// Pack an RGBA canvas into the monochrome bit-packed format: one bit
/// per pixel, MSB first, each row padded with clear bits to a whole
/// byte.
pub fn pack(c: &Canvas) -> (p: PackedBitmap)
    requires
        c.wf(),
    ensures
        packs(*c, p),
{
    let stride: usize = row_stride(c.width);
    proof {
        lemma_fundamental_div_mod(c.width as int + 7, 8);
        assert(8 * stride >= c.width && 8 * stride <= c.width + 7);
    }
    let mut bytes: Vec<u8> = Vec::new();
    let mut y: u32 = 0;
    while y < c.height
        invariant
            c.wf(),
            y <= c.height,
            stride == spec_row_stride(c.width as nat),
            8 * stride >= c.width,
            8 * stride <= c.width + 7,
            bytes@.len() == y * stride,
            rows_packed(*c, bytes@, stride as int, y as int),
        decreases c.height - y,
    {
        let mut bx: usize = 0;
        while bx < stride
            invariant
                c.wf(),
                y < c.height,
                stride == spec_row_stride(c.width as nat),
                8 * stride >= c.width,
                8 * stride <= c.width + 7,
                bx <= stride,
                bytes@.len() == y * stride + bx,
                rows_packed(*c, bytes@, stride as int, y as int),
                row_prefix_packed(*c, bytes@, stride as int, y as int, bx as int),
            decreases stride - bx,
        {
            let base: u32 = (bx as u32) * 8;
            let mut byte: u8 = 0;
            let mut k: u8 = 0;
            proof {
                assert forall|i: int| 0 <= i < 8 implies !spec_bit(0u8, i) by {
                    lemma_bit_zero(i as u8);
                }
            }
            while k < 8 && (base as u64) + (k as u64) < (c.width as u64)
                invariant
                    c.wf(),
                    y < c.height,
                    k <= 8,
                    base == 8 * bx,
                    bx < stride,
                    8 * stride <= c.width + 7,
                    forall|i: int|
                        0 <= i < 8 ==> #[trigger] spec_bit(byte, i) == (i < k && spec_col_ink(
                            *c,
                            base + i,
                            y as int,
                        )),
                decreases 8 - k,
            {
                let x: u32 = base + (k as u32);
                let ghost prev = byte;
                if c.is_ink(x, y) {
                    byte = byte | (0x80u8 >> k);
                    proof {
                        assert forall|i: int| 0 <= i < 8 implies #[trigger] spec_bit(byte, i) == (i
                            == k || spec_bit(prev, i)) by {
                            lemma_bit_or(prev, k, i as u8);
                        }
                    }
                }
                k = k + 1;
            }
            proof {
                assert forall|i: int| 0 <= i < 8 implies #[trigger] spec_bit(byte, i)
                    == spec_col_ink(*c, 8 * bx + i, y as int) by {
                    if i >= k {
                        assert(base + i >= c.width);
                    }
                }
            }
            let ghost old_bytes = bytes@;
            bytes.push(byte);
            proof {
                assert forall|b: int, i: int| 0 <= b < bx + 1 && 0 <= i < 8 implies
                    #[trigger] spec_bit(bytes@[y * (stride as int) + b], i) == spec_col_ink(
                    *c,
                    8 * b + i,
                    y as int,
                ) by {
                    if b < bx {
                        assert(spec_bit(old_bytes[y * (stride as int) + b], i) == spec_col_ink(
                            *c,
                            8 * b + i,
                            y as int,
                        ));
                    } else {
                        assert(bytes@[y * (stride as int) + bx] == byte);
                    }
                }
                assert forall|r: int, b: int, i: int|
                    0 <= r < y && 0 <= b < stride && 0 <= i < 8 implies #[trigger] spec_bit(
                    bytes@[r * (stride as int) + b],
                    i,
                ) == spec_col_ink(*c, 8 * b + i, r) by {
                    lemma_flat_index_bound(r, b, stride as int, y as int);
                    assert(spec_bit(old_bytes[r * (stride as int) + b], i) == spec_col_ink(
                        *c,
                        8 * b + i,
                        r,
                    ));
                }
            }
            bx = bx + 1;
        }
        proof {
            assert forall|r: int, b: int, i: int|
                0 <= r < y + 1 && 0 <= b < stride && 0 <= i < 8 implies #[trigger] spec_bit(
                bytes@[r * (stride as int) + b],
                i,
            ) == spec_col_ink(*c, 8 * b + i, r) by {
                if r < y {
                    assert(spec_bit(bytes@[r * (stride as int) + b], i) == spec_col_ink(
                        *c,
                        8 * b + i,
                        r,
                    ));
                } else {
                    assert(spec_bit(bytes@[y * (stride as int) + b], i) == spec_col_ink(
                        *c,
                        8 * b + i,
                        y as int,
                    ));
                }
            }
            assert((y + 1) * (stride as int) == y * (stride as int) + stride) by (nonlinear_arith);
        }
        y = y + 1;
    }
    let p = PackedBitmap { width: c.width, height: c.height, bytes };
    proof {
        assert(spec_row_stride(c.width as nat) * c.height == c.height * spec_row_stride(
            c.width as nat,
        )) by (nonlinear_arith);
        assert forall|x: int, yy: int|
            0 <= x < 8 * (stride as int) && 0 <= yy < c.height implies #[trigger] p.spec_bit_at(
            x,
            yy,
        ) == spec_col_ink(*c, x, yy) by {
            lemma_fundamental_div_mod(x, 8);
            let b = x / 8;
            let i = x % 8;
            assert(0 <= i < 8);
            assert(b < stride);
            assert(0 <= b);
            assert(spec_bit(p.bytes@[yy * (stride as int) + b], i) == spec_col_ink(
                *c,
                8 * b + i,
                yy,
            ));
        }
    }
    p
}

/// `c` is the re-expanded form of `p`: an ink bit becomes a pure black
/// pixel, a paper bit a pure white one, both fully opaque.
pub open spec fn unpacks(p: PackedBitmap, c: Canvas) -> bool {
    &&& c.width == p.width
    &&& c.height == p.height
    &&& c.wf()
    &&& forall|x: int, y: int|
        0 <= x < p.width && 0 <= y < p.height ==> {
            &&& #[trigger] c.spec_red(x, y) == (if p.spec_bit_at(x, y) {
                0u8
            } else {
                255u8
            })
            &&& c.spec_green(x, y) == (if p.spec_bit_at(x, y) {
                0u8
            } else {
                255u8
            })
            &&& c.spec_blue(x, y) == (if p.spec_bit_at(x, y) {
                0u8
            } else {
                255u8
            })
            &&& c.spec_alpha(x, y) == 255u8
        }
}

/// The four bytes of the pixel at `(x, y)` in `pix` match the bit of
/// `p` there: black for ink, white for paper, alpha opaque.
spec fn unpacked_pixel(p: PackedBitmap, pix: Seq<u8>, x: int, y: int) -> bool {
    let base = 4 * (y * p.width + x);
    &&& pix[base] == (if p.spec_bit_at(x, y) {
        0u8
    } else {
        255u8
    })
    &&& pix[base + 1] == (if p.spec_bit_at(x, y) {
        0u8
    } else {
        255u8
    })
    &&& pix[base + 2] == (if p.spec_bit_at(x, y) {
        0u8
    } else {
        255u8
    })
    &&& pix[base + 3] == 255u8
}

spec fn unpacked_rows(p: PackedBitmap, pix: Seq<u8>, rows: int) -> bool {
    forall|x: int, y: int|
        0 <= y < rows && 0 <= x < p.width ==> #[trigger] unpacked_pixel(p, pix, x, y)
}

spec fn unpacked_row_prefix(p: PackedBitmap, pix: Seq<u8>, y: int, upto: int) -> bool {
    forall|x: int| 0 <= x < upto ==> #[trigger] unpacked_pixel(p, pix, x, y)
}

proof fn lemma_pixel_index_bound(x: int, y: int, w: int, xb: int, yb: int)
    requires
        0 <= x < w,
        0 <= y,
        0 <= xb <= w,
        y < yb || (y == yb && x < xb),
    ensures
        0 <= 4 * (y * w + x),
        4 * (y * w + x) + 3 < 4 * (yb * w + xb),
{
    assert(0 <= y * w + x && y * w + x < yb * w + xb) by (nonlinear_arith)
        requires
            0 <= x < w,
            0 <= y,
            0 <= xb <= w,
            y < yb || (y == yb && x < xb),
    ;
}

/// Expand a packed bitmap back into an RGBA canvas: each ink bit
/// becomes a pure black pixel, each paper bit a pure white one.
pub fn unpack(p: &PackedBitmap) -> (c: Canvas)
    requires
        p.wf(),
        4 * p.width * p.height <= usize::MAX,
    ensures
        unpacks(*p, c),
{
    proof {
        lemma_fundamental_div_mod(p.width as int + 7, 8);
        assert(p.width <= 8 * spec_row_stride(p.width as nat));
        assert(4 * (p.width as int) * (p.height as int) == 4 * ((p.width as int) * (
        p.height as int))) by (nonlinear_arith);
    }
    let mut pixels: Vec<u8> = Vec::new();
    let mut y: u32 = 0;
    while y < p.height
        invariant
            p.wf(),
            p.width <= 8 * spec_row_stride(p.width as nat),
            4 * ((p.width as int) * (p.height as int)) <= usize::MAX,
            y <= p.height,
            pixels@.len() == 4 * ((y as int) * (p.width as int)),
            unpacked_rows(*p, pixels@, y as int),
        decreases p.height - y,
    {
        let mut x: u32 = 0;
        while x < p.width
            invariant
                p.wf(),
                p.width <= 8 * spec_row_stride(p.width as nat),
                4 * ((p.width as int) * (p.height as int)) <= usize::MAX,
                y < p.height,
                x <= p.width,
                pixels@.len() == 4 * ((y as int) * (p.width as int) + x),
                unpacked_rows(*p, pixels@, y as int),
                unpacked_row_prefix(*p, pixels@, y as int, x as int),
            decreases p.width - x,
        {
            let ink: bool = p.bit_at(x, y);
            let v: u8 = if ink {
                0
            } else {
                255
            };
            let ghost old_pixels = pixels@;
            pixels.push(v);
            pixels.push(v);
            pixels.push(v);
            pixels.push(255);
            proof {
                let base = 4 * ((y as int) * (p.width as int) + x);
                assert(pixels@.len() == base + 4);
                assert(pixels@[base] == v && pixels@[base + 1] == v && pixels@[base + 2] == v
                    && pixels@[base + 3] == 255u8);
                assert(unpacked_pixel(*p, pixels@, x as int, y as int));
                assert forall|xx: int, yy: int|
                    0 <= yy < y && 0 <= xx < p.width implies #[trigger] unpacked_pixel(
                    *p,
                    pixels@,
                    xx,
                    yy,
                ) by {
                    lemma_pixel_index_bound(
                        xx,
                        yy,
                        p.width as int,
                        x as int,
                        y as int,
                    );
                    assert(unpacked_pixel(*p, old_pixels, xx, yy));
                }
                assert forall|xx: int| 0 <= xx < x + 1 implies #[trigger] unpacked_pixel(
                    *p,
                    pixels@,
                    xx,
                    y as int,
                ) by {
                    if xx < x {
                        lemma_pixel_index_bound(
                            xx,
                            y as int,
                            p.width as int,
                            x as int,
                            y as int,
                        );
                        assert(unpacked_pixel(*p, old_pixels, xx, y as int));
                    }
                }
            }
            x = x + 1;
        }
        proof {
            assert(((y as int) + 1) * (p.width as int) == (y as int) * (p.width as int) + (
            p.width as int)) by (nonlinear_arith);
            assert forall|xx: int, yy: int|
                0 <= yy < y + 1 && 0 <= xx < p.width implies #[trigger] unpacked_pixel(
                *p,
                pixels@,
                xx,
                yy,
            ) by {
                if yy < y {
                    assert(unpacked_pixel(*p, pixels@, xx, yy));
                } else {
                    assert(unpacked_pixel(*p, pixels@, xx, y as int));
                }
            }
        }
        y = y + 1;
    }
    let c = Canvas { width: p.width, height: p.height, pixels };
    proof {
        assert(4 * (c.width as int) * (c.height as int) == 4 * ((c.height as int) * (
        c.width as int))) by (nonlinear_arith);
        assert forall|x: int, yy: int| 0 <= x < p.width && 0 <= yy < p.height implies {
            &&& #[trigger] c.spec_red(x, yy) == (if p.spec_bit_at(x, yy) {
                0u8
            } else {
                255u8
            })
            &&& c.spec_green(x, yy) == (if p.spec_bit_at(x, yy) {
                0u8
            } else {
                255u8
            })
            &&& c.spec_blue(x, yy) == (if p.spec_bit_at(x, yy) {
                0u8
            } else {
                255u8
            })
            &&& c.spec_alpha(x, yy) == 255u8
        } by {
            assert(unpacked_pixel(*p, c.pixels@, x, yy));
        }
    }
    c
}

/// Row padding invariant: the packed buffer holds exactly
/// `ceil(width/8)` bytes per row, and every bit of a row past the
/// last pixel column is clear, whatever the pixel content was.
pub proof fn lemma_row_padding(c: Canvas, p: PackedBitmap)
    requires
        packs(c, p),
    ensures
        p.bytes@.len() == spec_row_stride(c.width as nat) * c.height,
        forall|x: int, y: int|
            c.width <= x < 8 * spec_row_stride(c.width as nat) && 0 <= y < c.height ==> !(
            #[trigger] p.spec_bit_at(x, y)),
{
}

/// Threshold boundary: a pixel whose luminance is exactly at the
/// threshold packs to paper (clear), one just below it to ink (set);
/// the comparison is strictly `<`.
pub proof fn lemma_threshold_boundary(c: Canvas, p: PackedBitmap, x: int, y: int)
    requires
        packs(c, p),
        0 <= x < c.width,
        0 <= y < c.height,
    ensures
        spec_luminance(c.spec_red(x, y), c.spec_green(x, y), c.spec_blue(x, y)) == 128 ==> !p.spec_bit_at(
            x,
            y,
        ),
        spec_luminance(c.spec_red(x, y), c.spec_green(x, y), c.spec_blue(x, y)) == 127
            ==> p.spec_bit_at(x, y),
{
    assert(p.spec_bit_at(x, y) == c.spec_ink(x, y));
}

/// Every pixel of the canvas is fully opaque pure white.
pub open spec fn spec_pure_white(c: Canvas, x: int, y: int) -> bool {
    &&& c.spec_red(x, y) == 255u8
    &&& c.spec_green(x, y) == 255u8
    &&& c.spec_blue(x, y) == 255u8
    &&& c.spec_alpha(x, y) == 255u8
}

/// Every pixel of the canvas is fully opaque pure black.
pub open spec fn spec_pure_black(c: Canvas, x: int, y: int) -> bool {
    &&& c.spec_red(x, y) == 0u8
    &&& c.spec_green(x, y) == 0u8
    &&& c.spec_blue(x, y) == 0u8
    &&& c.spec_alpha(x, y) == 255u8
}

/// Every pixel is pure white or pure black.
pub open spec fn spec_monochrome(c: Canvas) -> bool {
    forall|x: int, y: int|
        0 <= x < c.width && 0 <= y < c.height ==> (#[trigger] spec_pure_white(c, x, y)
            || spec_pure_black(c, x, y))
}

proof fn lemma_pixelwise_eq(a: Seq<u8>, b: Seq<u8>, w: int, h: int)
    requires
        w >= 0,
        h >= 0,
        a.len() == 4 * (w * h),
        b.len() == 4 * (w * h),
        forall|x: int, y: int|
            0 <= x < w && 0 <= y < h ==> {
                &&& a[#[trigger] (4 * (y * w + x))] == b[4 * (y * w + x)]
                &&& a[4 * (y * w + x) + 1] == b[4 * (y * w + x) + 1]
                &&& a[4 * (y * w + x) + 2] == b[4 * (y * w + x) + 2]
                &&& a[4 * (y * w + x) + 3] == b[4 * (y * w + x) + 3]
            },
    ensures
        a =~= b,
{
    assert forall|i: int| 0 <= i < a.len() implies a[i] == b[i] by {
        assert(w > 0 && h > 0) by (nonlinear_arith)
            requires
                w >= 0,
                h >= 0,
                4 * (w * h) > 0,
        ;
        lemma_fundamental_div_mod(i, 4);
        let pi = i / 4;
        let ch = i % 4;
        lemma_mod_bound(i, 4);
        assert(pi < w * h);
        lemma_fundamental_div_mod(pi, w);
        lemma_mod_bound(pi, w);
        let y = pi / w;
        let x = pi % w;
        assert(0 <= x < w);
        assert(0 <= y < h) by (nonlinear_arith)
            requires
                pi == w * y + x,
                0 <= x < w,
                0 <= pi < w * h,
                w > 0,
                h > 0,
        ;
        assert(y * w == w * y) by (nonlinear_arith);
        assert(i == 4 * (y * w + x) + ch);
        assert(a[4 * (y * w + x)] == b[4 * (y * w + x)]);
    }
}

/// Packing a purely black-and-white canvas and expanding each bit back
/// to white or black reproduces the original canvas exactly.
pub proof fn lemma_pack_unpack_round_trip(c: Canvas, p: PackedBitmap, c2: Canvas)
    requires
        c.wf(),
        spec_monochrome(c),
        packs(c, p),
        unpacks(p, c2),
    ensures
        c2.width == c.width,
        c2.height == c.height,
        c2.pixels@ == c.pixels@,
{
    let w = c.width as int;
    assert forall|x: int, y: int| 0 <= x < w && 0 <= y < c.height implies {
        &&& c.pixels@[#[trigger] (4 * (y * w + x))] == c2.pixels@[4 * (y * w + x)]
        &&& c.pixels@[4 * (y * w + x) + 1] == c2.pixels@[4 * (y * w + x) + 1]
        &&& c.pixels@[4 * (y * w + x) + 2] == c2.pixels@[4 * (y * w + x) + 2]
        &&& c.pixels@[4 * (y * w + x) + 3] == c2.pixels@[4 * (y * w + x) + 3]
    } by {
        assert(spec_pure_white(c, x, y) || spec_pure_black(c, x, y));
        if spec_pure_white(c, x, y) {
            assert(!c.spec_ink(x, y));
            assert(!p.spec_bit_at(x, y));
        } else {
            assert(c.spec_ink(x, y));
            assert(p.spec_bit_at(x, y));
        }
        assert(c.spec_idx(x, y) == 4 * (y * w + x));
        assert(c2.spec_idx(x, y) == 4 * (y * w + x));
        assert(c2.spec_red(x, y) == c.spec_red(x, y));
        assert(c2.spec_green(x, y) == c.spec_green(x, y));
        assert(c2.spec_blue(x, y) == c.spec_blue(x, y));
        assert(c2.spec_alpha(x, y) == c.spec_alpha(x, y));
    }
    assert(4 * (c.width as int) * (c.height as int) == 4 * ((c.width as int) * (c.height as int)))
        by (nonlinear_arith);
    lemma_pixelwise_eq(c.pixels@, c2.pixels@, c.width as int, c.height as int);
    assert(c.pixels@ =~= c2.pixels@);
}

} // verus!
