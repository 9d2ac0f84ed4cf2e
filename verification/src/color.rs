//! RGB color entries of a scene's palette.

use vstd::prelude::*;

verus! {

/// One palette entry: three 8-bit channels. Alpha from the source file is
/// not preserved.
#[derive(Clone, Copy, Debug, Default)]
pub struct Color {
    pub r: u8,
    pub g: u8,
    pub b: u8,
}

impl Color {
    pub fn new(r: u8, g: u8, b: u8) -> (c: Self)
        ensures
            c == (Color { r, g, b }),
    {
        Color { r, g, b }
    }
}

} // verus!
