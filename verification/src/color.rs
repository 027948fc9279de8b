//! Colours as four bytes.

use vstd::prelude::*;

verus! {

/// A colour with eight bits per channel.
#[derive(Debug, Clone, Copy, PartialEq, Eq, Structural)]
pub struct Rgba {
    pub red: u8,
    pub green: u8,
    pub blue: u8,
    pub alpha: u8,
}

impl Rgba {
    /// Opaque white.
    #[must_use]
    pub fn white() -> (c: Self)
        ensures
            c == (Rgba { red: 255, green: 255, blue: 255, alpha: 255 }),
    {
        Rgba { red: 255, green: 255, blue: 255, alpha: 255 }
    }

    #[must_use]
    pub fn new(red: u8, green: u8, blue: u8, alpha: u8) -> (c: Self)
        ensures
            c == (Rgba { red, green, blue, alpha }),
    {
        Rgba { red, green, blue, alpha }
    }
}

} // verus!
