//! One row of the panel, packed for the wire.

use crate::display::{pack_high, pack_low, rgb_to_16bpp, WIDTH};
use crate::spi::AsBytes;
use vstd::prelude::*;

verus! {

/// Bytes in a row: two for each pixel.
pub const SCANLINE_BYTES: usize = 2 * WIDTH;

/// A row of pixels, each in 16 bits.
pub struct ScanLine {
    buf: [u8; SCANLINE_BYTES],
}

/// Whether `high` and `low` are the packing of a colour that `f` may return
/// for column `x`.
pub open spec fn is_pixel_of<F: Fn(usize) -> (u8, u8, u8)>(
    f: F,
    x: usize,
    high: u8,
    low: u8,
) -> bool {
    exists|rgb: (u8, u8, u8)| #[trigger]
        call_ensures(f, (x,), rgb) && high == pack_high(rgb.0, rgb.1) && low == pack_low(
            rgb.1,
            rgb.2,
        )
}

impl ScanLine {
    /// Builds the row from the colour of each column, asked for once, from
    /// left to right. Every byte of the row is written.
    #[inline(always)]
    pub fn new<F: Fn(usize) -> (u8, u8, u8)>(f: F) -> (line: Self)
        requires
            forall|x: usize| x < WIDTH ==> call_requires(f, (x,)),
        ensures
            line.bytes().len() == SCANLINE_BYTES,
            forall|x: usize|
                x < WIDTH ==> is_pixel_of(
                    f,
                    x,
                    #[trigger] line.bytes()[2 * x],
                    line.bytes()[2 * x + 1],
                ),
    {
        let mut this = ScanLine { buf: [0;SCANLINE_BYTES] };
        let mut i: usize = 0;
        let mut x: usize = 0;
        while i < SCANLINE_BYTES
            invariant
                i == 2 * x,
                x <= WIDTH,
                forall|x: usize| x < WIDTH ==> call_requires(f, (x,)),
                forall|k: usize|
                    k < x ==> is_pixel_of(f, k, #[trigger] this.buf@[2 * k], this.buf@[2 * k + 1]),
            decreases SCANLINE_BYTES - i,
        {
            let (r, g, b) = f(x);
            let pixel = rgb_to_16bpp(r, g, b);
            this.buf[i] = pixel[0];
            this.buf[i + 1] = pixel[1];
            assert(is_pixel_of(f, x, this.buf@[2 * x], this.buf@[2 * x + 1])) by {
                assert(call_ensures(f, (x,), (r, g, b)));
            }
            i += 2;
            x += 1;
        }
        this
    }
}

impl AsBytes for ScanLine {
    closed spec fn bytes(&self) -> Seq<u8> {
        self.buf@
    }

    fn as_bytes(&self) -> (s: &[u8]) {
        self.buf.as_slice()
    }
}

impl AsRef<[u8]> for ScanLine {
    fn as_ref(&self) -> (s: &[u8])
        ensures
            s@ == self.bytes(),
    {
        self.buf.as_slice()
    }
}

} // verus!
