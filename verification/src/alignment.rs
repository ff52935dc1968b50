//! How a text is placed relative to its anchor.
use vstd::prelude::*;

verus! {

/// The horizontal alignment of a text.
#[derive(Clone, Copy, Debug, PartialEq, Eq, Structural)]
pub enum Horizontal {
    /// The anchor is the left edge.
    Left,
    /// The anchor is the horizontal centre.
    Center,
    /// The anchor is the right edge.
    Right,
}

/// The vertical alignment of a text.
#[derive(Clone, Copy, Debug, PartialEq, Eq, Structural)]
pub enum Vertical {
    /// The anchor is the top edge.
    Top,
    /// The anchor is the vertical centre.
    Center,
    /// The anchor is the bottom edge.
    Bottom,
}

} // verus!
