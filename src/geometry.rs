//! Display-space points and sizes.

use vstd::prelude::*;

verus! {

/// An integer position in display space; may lie outside any buffer.
#[derive(Clone, Copy, Debug, PartialEq, Eq, Structural)]
pub struct Point {
    pub x: i32,
    pub y: i32,
}

/// A width and a height in pixels.
#[derive(Clone, Copy, Debug, PartialEq, Eq, Structural)]
pub struct Size {
    pub width: u32,
    pub height: u32,
}

impl Point {
    pub fn new(x: i32, y: i32) -> (p: Point)
        ensures
            p.x == x && p.y == y,
    {
        Point { x, y }
    }
}

impl Size {
    pub fn new(width: u32, height: u32) -> (s: Size)
        ensures
            s.width == width && s.height == height,
    {
        Size { width, height }
    }
}

/// Offset from the top-left corner to the center of a rectangle of size
/// `(w, h)`: half of one less than each side, rounded down, never negative.
pub open spec fn center_offset(w: int, h: int) -> (int, int) {
    (if w > 0 { (w - 1) / 2 } else { 0 }, if h > 0 { (h - 1) / 2 } else { 0 })
}

/// The center of the rectangle of size `size` whose top-left corner is the
/// origin (rounded towards the top-left for even sides).
pub fn center_of(size: Size) -> (p: Point)
    ensures
        p.x == center_offset(size.width as int, size.height as int).0,
        p.y == center_offset(size.width as int, size.height as int).1,
{
    let w = if size.width > 0 { (size.width - 1) / 2 } else { 0 };
    let h = if size.height > 0 { (size.height - 1) / 2 } else { 0 };
    Point { x: w as i32, y: h as i32 }
}

} // verus!
