//! The pixel value that the whole library works on.

use vstd::prelude::*;

verus! {

/// One pixel: red, green, blue and alpha, each a byte.
#[derive(Clone, Copy, Debug, PartialEq, Eq, Structural)]
pub struct Pixel {
    pub r: u8,
    pub g: u8,
    pub b: u8,
    pub a: u8,
}

impl Pixel {
    /// Builds a pixel from its four channels.
    pub fn new(r: u8, g: u8, b: u8, a: u8) -> (pixel: Pixel)
        ensures
            pixel == (Pixel { r, g, b, a }),
    {
        Pixel { r, g, b, a }
    }

    /// The four channels in the order red, green, blue, alpha.
    pub fn to_array(&self) -> (channels: [u8; 4])
        ensures
            channels@ == seq![self.r, self.g, self.b, self.a],
    {
        let channels: [u8; 4] = [self.r, self.g, self.b, self.a];
        channels
    }
}

} // verus!
