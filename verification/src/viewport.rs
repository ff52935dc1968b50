//! The surface that a frame is drawn to.
use vstd::prelude::*;
use crate::geometry::Size;
use crate::units::{clamp, saturate, UNIT};

verus! {

/// The size of a surface in physical pixels, and the scale factor between
/// logical units and pixels.
#[derive(Clone, Copy, Debug, PartialEq, Eq, Structural)]
pub struct Viewport {
    physical_width: u32,
    physical_height: u32,
    scale_factor: u32,
}

/// The scalar that `pixels` physical pixels measure at the fixed-point scale
/// factor `scale`. At a scale factor of zero every pixel is endlessly large.
pub open spec fn logical(pixels: u32, scale: u32) -> i32 {
    if scale == 0 {
        i32::MAX
    } else {
        clamp((pixels as int * (UNIT as int * UNIT as int)) / (scale as int))
    }
}

fn to_logical(pixels: u32, scale: u32) -> (r: i32)
    ensures
        r == logical(pixels, scale),
{
    if scale == 0 {
        i32::MAX
    } else {
        assert(UNIT as int * UNIT as int == 1_048_576);
        let wide: u64 = pixels as u64 * 1_048_576;
        let scaled: u64 = wide / (scale as u64);
        saturate(scaled as i64)
    }
}

impl Viewport {
    /// The physical width in pixels.
    pub closed spec fn width(self) -> u32 {
        self.physical_width
    }

    /// The physical height in pixels.
    pub closed spec fn height(self) -> u32 {
        self.physical_height
    }

    /// The fixed-point scale factor: `UNIT` where a logical unit is a pixel.
    pub closed spec fn scale(self) -> u32 {
        self.scale_factor
    }

    /// The size in logical units.
    pub open spec fn logical_extent(self) -> Size {
        Size {
            width: logical(self.width(), self.scale()),
            height: logical(self.height(), self.scale()),
        }
    }

    /// A viewport of `width` by `height` physical pixels at `scale_factor`.
    pub fn with_physical_size(width: u32, height: u32, scale_factor: u32) -> (v: Viewport)
        ensures
            v.width() == width,
            v.height() == height,
            v.scale() == scale_factor,
    {
        Viewport { physical_width: width, physical_height: height, scale_factor }
    }

    /// The physical size in pixels, width first.
    pub fn physical_size(&self) -> (size: (u32, u32))
        ensures
            size == (self.width(), self.height()),
    {
        (self.physical_width, self.physical_height)
    }

    /// The fixed-point scale factor.
    pub fn scale_factor(&self) -> (scale: u32)
        ensures
            scale == self.scale(),
    {
        self.scale_factor
    }

    /// The size in logical units.
    pub fn logical_size(&self) -> (size: Size)
        ensures
            size == self.logical_extent(),
    {
        Size {
            width: to_logical(self.physical_width, self.scale_factor),
            height: to_logical(self.physical_height, self.scale_factor),
        }
    }
}

} // verus!
