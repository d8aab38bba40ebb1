//! World-space geometry: positions, rendered sizes, native texture sizes and
//! the overlap of two axis-aligned bounding rectangles.

use vstd::prelude::*;
use vstd::math::{max, min};

verus! {

/// Top-left corner of a sprite, in whole world units.
#[derive(Clone, Copy, Debug, PartialEq, Eq, Structural)]
pub struct Point {
    pub x: i32,
    pub y: i32,
}

/// Width and height of a sprite as drawn, in whole world units.
#[derive(Clone, Copy, Debug, PartialEq, Eq, Structural)]
pub struct Extent {
    pub width: i32,
    pub height: i32,
}

/// Width and height of the underlying image, in texels.
#[derive(Clone, Copy, Debug, PartialEq, Eq, Structural)]
pub struct TexSize {
    pub width: u32,
    pub height: u32,
}

/// The rectangle shared by two bounding rectangles. `width` or `height` is
/// zero or negative when the two do not intersect.
#[derive(Clone, Copy, Debug, PartialEq, Eq, Structural)]
pub struct Overlap {
    pub x: i64,
    pub y: i64,
    pub width: i64,
    pub height: i64,
}

/// Whether the world point `(x, y)` lies in the rectangle at `pos` of size
/// `size`: inclusive at the top-left, exclusive at the bottom-right.
pub open spec fn rect_contains(pos: Point, size: Extent, x: int, y: int) -> bool {
    &&& pos.x <= x < pos.x + size.width
    &&& pos.y <= y < pos.y + size.height
}

/// Left edge of the overlap of two rectangles.
pub open spec fn overlap_left(p1: Point, p2: Point) -> int {
    max(p1.x as int, p2.x as int)
}

/// Top edge of the overlap of two rectangles.
pub open spec fn overlap_top(p1: Point, p2: Point) -> int {
    max(p1.y as int, p2.y as int)
}

/// Width of the overlap of two rectangles; not positive when they are apart
/// on the horizontal axis.
pub open spec fn overlap_width(p1: Point, s1: Extent, p2: Point, s2: Extent) -> int {
    min(p1.x + s1.width, p2.x + s2.width) - overlap_left(p1, p2)
}

/// Height of the overlap of two rectangles; not positive when they are apart
/// on the vertical axis.
pub open spec fn overlap_height(p1: Point, s1: Extent, p2: Point, s2: Extent) -> int {
    min(p1.y + s1.height, p2.y + s2.height) - overlap_top(p1, p2)
}

/// Whether two rectangles share at least one unit of area.
pub open spec fn rects_intersect(p1: Point, s1: Extent, p2: Point, s2: Extent) -> bool {
    overlap_width(p1, s1, p2, s2) > 0 && overlap_height(p1, s1, p2, s2) > 0
}

/// Computes the overlap of the rectangle at `p1` of size `s1` with the
/// rectangle at `p2` of size `s2`.
pub fn bounding_overlap(p1: Point, s1: Extent, p2: Point, s2: Extent) -> (r: Overlap)
    ensures
        r.x == overlap_left(p1, p2),
        r.y == overlap_top(p1, p2),
        r.width == overlap_width(p1, s1, p2, s2),
        r.height == overlap_height(p1, s1, p2, s2),
{
    let x: i64 = if p1.x >= p2.x { p1.x as i64 } else { p2.x as i64 };
    let y: i64 = if p1.y >= p2.y { p1.y as i64 } else { p2.y as i64 };
    let right1: i64 = p1.x as i64 + s1.width as i64;
    let right2: i64 = p2.x as i64 + s2.width as i64;
    let bottom1: i64 = p1.y as i64 + s1.height as i64;
    let bottom2: i64 = p2.y as i64 + s2.height as i64;
    let right: i64 = if right1 <= right2 { right1 } else { right2 };
    let bottom: i64 = if bottom1 <= bottom2 { bottom1 } else { bottom2 };
    Overlap { x, y, width: right - x, height: bottom - y }
}

/// Whether the world point `(x, y)` lies in the rectangle at `pos` of size
/// `size`.
pub fn point_in_rect(pos: Point, size: Extent, x: i64, y: i64) -> (inside: bool)
    ensures
        inside == rect_contains(pos, size, x as int, y as int),
{
    let left: i64 = pos.x as i64;
    let top: i64 = pos.y as i64;
    x >= left && x < left + size.width as i64 && y >= top && y < top + size.height as i64
}

/// A point lies in two rectangles exactly when it lies in their overlap, and
/// such a point exists exactly when the overlap has positive width and height.
pub proof fn lemma_overlap_is_intersection(p1: Point, s1: Extent, p2: Point, s2: Extent, x: int, y: int)
    ensures
        (rect_contains(p1, s1, x, y) && rect_contains(p2, s2, x, y)) <==> ({
            &&& overlap_left(p1, p2) <= x < overlap_left(p1, p2) + overlap_width(p1, s1, p2, s2)
            &&& overlap_top(p1, p2) <= y < overlap_top(p1, p2) + overlap_height(p1, s1, p2, s2)
        }),
        rects_intersect(p1, s1, p2, s2) <==> (rect_contains(p1, s1, overlap_left(p1, p2), overlap_top(p1, p2))
            && rect_contains(p2, s2, overlap_left(p1, p2), overlap_top(p1, p2))),
{
}

} // verus!
