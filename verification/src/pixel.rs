//! Pixels, wraparound channel arithmetic, and the color-cache hash.

use vstd::prelude::*;

verus! {

/// One 3-channel color value. Channels are 8-bit; pixels are plain values,
/// copied rather than referenced.
#[derive(Clone, Copy, PartialEq, Eq, Structural, Debug)]
pub struct Pixel {
    pub r: u8,
    pub g: u8,
    pub b: u8,
}

/// The previous-pixel register starts out as opaque black before the first
/// pixel of a stream is examined.
pub open spec fn black() -> Pixel {
    Pixel { r: 0, g: 0, b: 0 }
}

/// Wraparound (modular) 8-bit subtraction, the arithmetic in which all
/// channel deltas are computed.
pub open spec fn wsub(a: u8, b: u8) -> u8 {
    vstd::wrapping::u8_specs::wrapping_sub(a, b)
}

/// Wraparound (modular) 8-bit addition, used to bias signed deltas into
/// small unsigned ranges.
pub open spec fn wadd(a: u8, b: u8) -> u8 {
    vstd::wrapping::u8_specs::wrapping_add(a, b)
}

/// The value of a delta byte reinterpreted as a signed 8-bit quantity.
pub open spec fn signed(x: u8) -> int {
    if x < 128 {
        x as int
    } else {
        x - 256
    }
}

/// The color-cache hash: `(3·R + 5·G + 7·B + 11·A) mod 64`. The exact
/// coefficients and modulus are a bitstream-compatibility requirement.
pub open spec fn spec_hash(red: u8, green: u8, blue: u8, alpha: u8) -> int {
    (3 * red + 5 * green + 7 * blue + 11 * alpha) % 64
}

/// Cache slot of a 3-channel pixel: the alpha coefficient always sees 255.
pub open spec fn pixel_hash(p: Pixel) -> int {
    spec_hash(p.r, p.g, p.b, 255)
}

/// Computes the cache slot for a color: `(3·R + 5·G + 7·B + 11·A) mod 64`.
pub fn pos_hash(red: u8, green: u8, blue: u8, alpha: u8) -> (pos: usize)
    ensures
        pos == spec_hash(red, green, blue, alpha),
        pos < 64,
{
    let sum: u32 = (red as u32) * 3 + (green as u32) * 5 + (blue as u32) * 7 + (alpha as u32) * 11;
    (sum % 64) as usize
}

/// The pixel sequence carried by a raw byte buffer: three bytes per pixel,
/// in channel order red, green, blue.
pub open spec fn spec_pixels(bytes: Seq<u8>) -> Seq<Pixel> {
    Seq::new((bytes.len() / 3) as nat, |i: int| Pixel {
        r: bytes[3 * i],
        g: bytes[3 * i + 1],
        b: bytes[3 * i + 2],
    })
}

} // verus!
