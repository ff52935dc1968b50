//! The numbers that the shaping of text is asked with, and what is made of
//! its answer.
use vstd::prelude::*;
use crate::geometry::Rectangle;
use crate::units::{clamp, UNIT};

verus! {

/// The size of a typeface in pixels, and the height of its lines.
#[derive(Clone, Copy, Debug, PartialEq, Eq, Structural)]
pub struct Metrics {
    pub font_size: i32,
    pub line_height: i32,
}

/// The region in pixels outside of which no glyph is drawn.
#[derive(Clone, Copy, Debug, PartialEq, Eq, Structural)]
pub struct TextBounds {
    pub left: i32,
    pub top: i32,
    pub right: i32,
    pub bottom: i32,
}

/// `n` divided by `d`, rounded towards zero.
pub open spec fn towards_zero(n: int, d: int) -> int {
    if n >= 0 {
        n / d
    } else {
        -((-n) / d)
    }
}

/// The whole pixels of the scalar `v` at the scale factor `scale`, rounded
/// towards zero.
pub open spec fn whole_pixels(v: int, scale: u32) -> i32 {
    clamp(towards_zero(v * scale, UNIT as int * UNIT as int))
}

/// The least number of whole pixels that hold the scalar `v` at the scale
/// factor `scale`.
pub open spec fn pixels_up(v: int, scale: u32) -> i32 {
    if v * scale > 0 && (v * scale) % (UNIT as int * UNIT as int) != 0 {
        clamp(towards_zero(v * scale, UNIT as int * UNIT as int) + 1)
    } else {
        whole_pixels(v, scale)
    }
}

/// The height of a line of text of the size `size`: a fifth more than the
/// size.
pub open spec fn line_of(size: i32) -> int {
    towards_zero(size * 6, 5)
}

/// The larger of `floor` and the first `n` of `widths`.
pub open spec fn widest(widths: Seq<i32>, n: int, floor: i32) -> i32
    decreases n,
{
    if n <= 0 || n > widths.len() {
        floor
    } else {
        let before = widest(widths, n - 1, floor);
        if widths[n - 1] > before {
            widths[n - 1]
        } else {
            before
        }
    }
}

fn product(v: i64, scale: u32) -> (p: i128)
    requires
        -0x1_0000_0000 <= v <= 0x1_0000_0000,
    ensures
        p == v * scale,
        -0x1_0000_0000_0000_0000 <= p <= 0x1_0000_0000_0000_0000,
{
    assert(-0x1_0000_0000 * 0xffff_ffff <= v * scale <= 0x1_0000_0000 * 0xffff_ffff)
        by (nonlinear_arith)
        requires
            -0x1_0000_0000 <= v <= 0x1_0000_0000,
            0 <= scale <= 0xffff_ffff,
    ;
    (v as i128) * (scale as i128)
}

fn divide(n: i128, d: i128) -> (q: i128)
    requires
        d > 0,
        -0x1_0000_0000_0000_0000 <= n <= 0x1_0000_0000_0000_0000,
    ensures
        q == towards_zero(n as int, d as int),
{
    if n >= 0 {
        n / d
    } else {
        -((-n) / d)
    }
}

fn narrow(v: i128) -> (r: i32)
    ensures
        r == clamp(v as int),
{
    if v < i32::MIN as i128 {
        i32::MIN
    } else if v > i32::MAX as i128 {
        i32::MAX
    } else {
        v as i32
    }
}

fn to_whole(v: i64, scale: u32) -> (r: i32)
    requires
        -0x1_0000_0000 <= v <= 0x1_0000_0000,
    ensures
        r == whole_pixels(v as int, scale),
{
    assert(UNIT as int * UNIT as int == 1_048_576);
    narrow(divide(product(v, scale), 1_048_576))
}

fn to_whole_up(v: i64, scale: u32) -> (r: i32)
    requires
        -0x1_0000_0000 <= v <= 0x1_0000_0000,
    ensures
        r == pixels_up(v as int, scale),
{
    assert(UNIT as int * UNIT as int == 1_048_576);
    let p = product(v, scale);
    let q = divide(p, 1_048_576);
    if p > 0 && p % 1_048_576 != 0 {
        narrow(q + 1)
    } else {
        narrow(q)
    }
}

/// The metrics of text of the size `size` at the scale factor `scale`.
pub fn metrics(size: i32, scale: u32) -> (m: Metrics)
    ensures
        m == (Metrics {
            font_size: whole_pixels(size as int, scale),
            line_height: whole_pixels(line_of(size), scale),
        }),
{
    let line: i128 = divide(size as i128 * 6, 5);
    Metrics { font_size: to_whole(size as i64, scale), line_height: to_whole(line as i64, scale) }
}

/// The number of pixels that a run of text may fill at most: the extent of
/// its bounds, rounded up.
pub fn buffer_size(bounds: Rectangle, scale: u32) -> (size: (i32, i32))
    ensures
        size == (pixels_up(bounds.width as int, scale), pixels_up(bounds.height as int, scale)),
{
    (to_whole_up(bounds.width as i64, scale), to_whole_up(bounds.height as i64, scale))
}

/// The region in pixels that the text of a layer with the bounds `bounds`
/// is drawn in.
pub fn text_bounds(bounds: Rectangle, scale: u32) -> (region: TextBounds)
    ensures
        region == (TextBounds {
            left: whole_pixels(bounds.x as int, scale),
            top: whole_pixels(bounds.y as int, scale),
            right: whole_pixels(bounds.x + bounds.width, scale),
            bottom: whole_pixels(bounds.y + bounds.height, scale),
        }),
{
    TextBounds {
        left: to_whole(bounds.x as i64, scale),
        top: to_whole(bounds.y as i64, scale),
        right: to_whole(bounds.x as i64 + bounds.width as i64, scale),
        bottom: to_whole(bounds.y as i64 + bounds.height as i64, scale),
    }
}

/// The extent of text that was shaped into lines of the given widths: as
/// wide as its widest line, or as nothing where no line has a width above
/// zero; and as high as its lines together.
pub fn measure(line_widths: &Vec<i32>, size: i32) -> (extent: (i32, i32))
    ensures
        extent.0 == widest(line_widths@, line_widths@.len() as int, 0),
        extent.1 == clamp(line_of(size) * line_widths@.len()),
{
    let mut width: i32 = 0;
    let mut i: usize = 0;
    while i < line_widths.len()
        invariant
            i <= line_widths.len(),
            width == widest(line_widths@, i as int, 0),
        decreases line_widths.len() - i,
    {
        if line_widths[i] > width {
            width = line_widths[i];
        }
        i = i + 1;
    }
    let line: i128 = divide(size as i128 * 6, 5);
    assert(-0x1_0000_0000 <= line <= 0x1_0000_0000);
    assert(-0x1_0000_0000 * 0xffff_ffff_ffff_ffff <= line * line_widths.len()
        <= 0x1_0000_0000 * 0xffff_ffff_ffff_ffff) by (nonlinear_arith)
        requires
            -0x1_0000_0000 <= line <= 0x1_0000_0000,
            0 <= line_widths.len() <= 0xffff_ffff_ffff_ffff,
    ;
    let height: i128 = line * (line_widths.len() as i128);
    (width, narrow(height))
}

} // verus!
