//! The canonical pixel value: four unsigned byte channels in (R, G, B, A)
//! order. Immutable, freely copied, no invariant beyond the byte range.

use vstd::prelude::*;

verus! {

/// One pixel in canonical channel order.
#[derive(Clone, Copy, PartialEq, Eq, Structural, Debug)]
pub struct Color {
    pub r: u8,
    pub g: u8,
    pub b: u8,
    pub a: u8,
}

impl Color {
    /// Builds a canonical pixel from one 4-byte window of the capture
    /// device's raw buffer, which carries the channels in (B, G, R, A) order.
    pub fn from_wire(b0: u8, b1: u8, b2: u8, b3: u8) -> (c: Color)
        ensures
            c == (Color { r: b2, g: b1, b: b0, a: b3 }),
    {
        Color { r: b2, g: b1, b: b0, a: b3 }
    }
}

} // verus!
