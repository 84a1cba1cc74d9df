//! The part of the screen that a triangle can reach.
//!
//! A triangle is drawn by visiting the pixels of the rectangle around its
//! three corners. Corners may lie off the screen, so the rectangle is cut down
//! to the screen first; when nothing is left of it, the triangle reaches no
//! pixel at all.
use vstd::math::{max, min};
use vstd::prelude::*;

verus! {

/// A rectangle of pixels: the columns from `min_x` to `max_x` and the rows
/// from `min_y` to `max_y`, the bounds included.
#[derive(Debug, Clone, Copy, PartialEq, Eq)]
pub struct PixelBox {
    pub min_x: u32,
    pub min_y: u32,
    pub max_x: u32,
    pub max_y: u32,
}

/// Whether column `x`, row `y` lies in the given rectangle of the plane and
/// on a screen of `width` by `height` pixels.
pub open spec fn reaches(
    min_x: int,
    min_y: int,
    max_x: int,
    max_y: int,
    width: int,
    height: int,
    x: int,
    y: int,
) -> bool {
    &&& min_x <= x <= max_x
    &&& min_y <= y <= max_y
    &&& 0 <= x < width
    &&& 0 <= y < height
}

/// Whether the given rectangle of the plane and a screen of `width` by
/// `height` pixels have a pixel in common.
pub open spec fn overlaps(
    min_x: int,
    min_y: int,
    max_x: int,
    max_y: int,
    width: int,
    height: int,
) -> bool {
    &&& max(min_x, 0) <= min(max_x, width - 1)
    &&& max(min_y, 0) <= min(max_y, height - 1)
}

impl PixelBox {
    /// Whether the rectangle holds the pixel at column `x`, row `y`.
    pub open spec fn contains(self, x: int, y: int) -> bool {
        self.min_x <= x <= self.max_x && self.min_y <= y <= self.max_y
    }

    /// The pixels of a screen of `width` by `height` pixels that lie in the
    /// rectangle from `(min_x, min_y)` to `(max_x, max_y)`: a rectangle again,
    /// or `None` when there is no such pixel.
    pub fn on_screen(
        min_x: i64,
        min_y: i64,
        max_x: i64,
        max_y: i64,
        width: u32,
        height: u32,
    ) -> (clipped: Option<PixelBox>)
        ensures
            clipped is Some <==> overlaps(
                min_x as int,
                min_y as int,
                max_x as int,
                max_y as int,
                width as int,
                height as int,
            ),
            clipped matches Some(area) ==> {
                &&& area.min_x == max(min_x as int, 0)
                &&& area.min_y == max(min_y as int, 0)
                &&& area.max_x == min(max_x as int, width - 1)
                &&& area.max_y == min(max_y as int, height - 1)
            },
            forall|x: int, y: int| #[trigger]
                reaches(
                    min_x as int,
                    min_y as int,
                    max_x as int,
                    max_y as int,
                    width as int,
                    height as int,
                    x,
                    y,
                ) <==> clipped is Some && clipped->0.contains(x, y),
    {
        if width == 0 || height == 0 || max_x < 0 || max_y < 0 || min_x > max_x || min_y > max_y
            || min_x >= width as i64 || min_y >= height as i64 {
            return None;
        }
        let left: u32 = if min_x < 0 {
            0
        } else {
            min_x as u32
        };
        let bottom: u32 = if min_y < 0 {
            0
        } else {
            min_y as u32
        };
        let right: u32 = if max_x >= width as i64 {
            width - 1
        } else {
            max_x as u32
        };
        let top: u32 = if max_y >= height as i64 {
            height - 1
        } else {
            max_y as u32
        };
        Some(PixelBox { min_x: left, min_y: bottom, max_x: right, max_y: top })
    }
}

} // verus!
