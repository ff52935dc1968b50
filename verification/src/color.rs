//! Colours.
use vstd::prelude::*;
use crate::units::UNIT;

verus! {

/// A colour in linear RGBA. Each channel is a scalar, `UNIT` being full
/// intensity.
#[derive(Clone, Copy, Debug, PartialEq, Eq, Structural)]
pub struct Color {
    pub r: i32,
    pub g: i32,
    pub b: i32,
    pub a: i32,
}

impl Color {
    /// The four channels in the order red, green, blue, alpha.
    pub open spec fn channels(self) -> Seq<i32> {
        seq![self.r, self.g, self.b, self.a]
    }

    pub fn new(r: i32, g: i32, b: i32, a: i32) -> (c: Color)
        ensures
            c == (Color { r, g, b, a }),
    {
        Color { r, g, b, a }
    }

    /// Opaque black.
    pub fn black() -> (c: Color)
        ensures
            c == (Color { r: 0, g: 0, b: 0, a: UNIT }),
    {
        Color { r: 0, g: 0, b: 0, a: UNIT }
    }

    /// Black without any opacity: the colour of a slot that holds nothing.
    pub fn transparent() -> (c: Color)
        ensures
            c == (Color { r: 0, g: 0, b: 0, a: 0 }),
    {
        Color { r: 0, g: 0, b: 0, a: 0 }
    }

    /// The four linear channels as one row.
    pub fn into_linear(self) -> (row: [i32; 4])
        ensures
            row@ == self.channels(),
    {
        let row: [i32; 4] = [self.r, self.g, self.b, self.a];
        assert(row@ =~= self.channels());
        row
    }
}

/// What fills a quad.
#[derive(Clone, Copy, Debug, PartialEq, Eq, Structural)]
pub enum Background {
    /// One colour all over.
    Color(Color),
}

} // verus!
