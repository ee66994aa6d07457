//! What is handed out of a layout: the rendered image with its size in
//! pixels, and where the text stands in the height of its box.

use vstd::prelude::*;
use crate::layout::Rectangle;

verus! {

/// The number of scaled points in a pixel: three quarters of a point.
pub const SCALED_POINTS_PER_PIXEL: i32 = 768;

/// How far down the text is moved so that what is inked stands in the
/// middle of the height `layout_height`: half of what the ink leaves free of
/// the height, less the offset at which the ink starts.
pub open spec fn top_padding(layout_height: int, ink: Rectangle) -> int {
    let surplus = layout_height - ink.height;
    let half = if surplus >= 0 {
        surplus / 2
    } else {
        -((-surplus) / 2)
    };
    half - ink.y
}

/// How far down the text is moved so that what is inked stands in the
/// middle of the height of its box, in scaled points.
pub fn calculate_top_padding(layout_height: i32, ink: &Rectangle) -> (r: i64)
    ensures
        r == top_padding(layout_height as int, *ink),
{
    let surplus_height: i64 = layout_height as i64 - ink.height as i64;
    let top_padding: i64 = surplus_height / 2;
    top_padding - ink.y as i64
}

/// A length in scaled points, in whole pixels: the fraction of a pixel is
/// left out.
pub open spec fn whole_pixels(scaled: int) -> int {
    if scaled >= 0 {
        scaled / (SCALED_POINTS_PER_PIXEL as int)
    } else {
        -((-scaled) / (SCALED_POINTS_PER_PIXEL as int))
    }
}

/// A length in scaled points, in whole pixels.
pub fn px_of(scaled: i32) -> (r: i32)
    ensures
        r == whole_pixels(scaled as int),
{
    scaled / SCALED_POINTS_PER_PIXEL
}

/// A rendered text box.
#[derive(Debug, Clone, PartialEq, Eq)]
pub struct LayoutOutput {
    /// The image as bytes.
    pub rendered: Vec<u8>,
    /// The height of the image in pixels.
    pub height: i32,
    /// The width of the image in pixels.
    pub width: i32,
}

impl LayoutOutput {
    /// The output for an image that was rendered of a layout of the given
    /// width and height in scaled points.
    pub fn new(rendered: Vec<u8>, layout_width: i32, layout_height: i32) -> (r: LayoutOutput)
        ensures
            r.rendered == rendered,
            r.width == whole_pixels(layout_width as int),
            r.height == whole_pixels(layout_height as int),
    {
        LayoutOutput { rendered, height: px_of(layout_height), width: px_of(layout_width) }
    }
}

} // verus!
