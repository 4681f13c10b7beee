use vstd::prelude::*;

verus! {

/// Luminance threshold: a pixel strictly darker than this packs to
/// "ink" (a set bit); at or above it packs to "paper" (a clear bit).
pub const INK_THRESHOLD: u8 = 128;

/// Integer-truncated luminance of an RGB triple, `0.299 R + 0.587 G +
/// 0.114 B` computed exactly in thousandths.
pub open spec fn spec_luminance(r: u8, g: u8, b: u8) -> int {
    (299 * r + 587 * g + 114 * b) / 1000
}

/// An RGBA pixel canvas: `pixels` holds 4 bytes per pixel (red, green,
/// blue, alpha), row-major, top row first.
pub struct Canvas {
    pub width: u32,
    pub height: u32,
    pub pixels: Vec<u8>,
}

impl Canvas {
    /// Well-formed: exactly four bytes for each of the `width * height` pixels.
    pub open spec fn wf(self) -> bool {
        self.pixels@.len() == 4 * self.width * self.height
    }

    /// Byte offset of the pixel at column `x`, row `y`.
    pub open spec fn spec_idx(self, x: int, y: int) -> int {
        4 * (y * self.width + x)
    }

    pub open spec fn spec_red(self, x: int, y: int) -> u8 {
        self.pixels@[self.spec_idx(x, y)]
    }

    pub open spec fn spec_green(self, x: int, y: int) -> u8 {
        self.pixels@[self.spec_idx(x, y) + 1]
    }

    pub open spec fn spec_blue(self, x: int, y: int) -> u8 {
        self.pixels@[self.spec_idx(x, y) + 2]
    }

    pub open spec fn spec_alpha(self, x: int, y: int) -> u8 {
        self.pixels@[self.spec_idx(x, y) + 3]
    }

    /// Whether the pixel at `(x, y)` is dark enough to pack to ink.
    pub open spec fn spec_ink(self, x: int, y: int) -> bool {
        spec_luminance(self.spec_red(x, y), self.spec_green(x, y), self.spec_blue(x, y))
            < INK_THRESHOLD
    }

    /// The four channel bytes of the pixel at `(x, y)`.
    pub fn channels(&self, x: u32, y: u32) -> (r: (u8, u8, u8, u8))
        requires
            self.wf(),
            x < self.width,
            y < self.height,
        ensures
            r.0 == self.spec_red(x as int, y as int),
            r.1 == self.spec_green(x as int, y as int),
            r.2 == self.spec_blue(x as int, y as int),
            r.3 == self.spec_alpha(x as int, y as int),
    {
        let n: usize = self.pixels.len();
        proof {
            assert((y as int) * (self.width as int) + (x as int) + 1 <= (self.width as int) * (
            self.height as int)) by (nonlinear_arith)
                requires
                    (x as int) < (self.width as int),
                    (y as int) < (self.height as int),
                    0 <= (x as int),
                    0 <= (y as int),
            ;
            assert(4 * (self.width as int) * (self.height as int) == 4 * ((self.width as int) * (
            self.height as int))) by (nonlinear_arith);
        }
        let row: usize = (y as usize) * (self.width as usize) + (x as usize);
        let i: usize = 4 * row;
        (self.pixels[i], self.pixels[i + 1], self.pixels[i + 2], self.pixels[i + 3])
    }

    /// Whether the pixel at `(x, y)` packs to ink (luminance strictly
    /// below the threshold).
    pub fn is_ink(&self, x: u32, y: u32) -> (r: bool)
        requires
            self.wf(),
            x < self.width,
            y < self.height,
        ensures
            r == self.spec_ink(x as int, y as int),
    {
        let (red, green, blue, _alpha) = self.channels(x, y);
        luminance(red, green, blue) < INK_THRESHOLD
    }
}

/// Integer-truncated luminance of an RGB triple. A pure white pixel
/// maps to 255, pure black to 0.
pub fn luminance(r: u8, g: u8, b: u8) -> (l: u8)
    ensures
        l as int == spec_luminance(r, g, b),
{
    let sum: u32 = 299 * (r as u32) + 587 * (g as u32) + 114 * (b as u32);
    (sum / 1000) as u8
}

} // verus!
