//! Screen geometry: points and rectangles with saturating translation.
//!
//! Coordinates are `i64`. Every arithmetic operation saturates at the
//! type bounds, so geometry updates are total; the saturation point is
//! unreachable for real screen coordinates.

use vstd::prelude::*;

verus! {

/// The mathematical value of an `i64` sum clipped to the representable range.
pub open spec fn sat64(v: int) -> int {
    if v > i64::MAX as int {
        i64::MAX as int
    } else if v < i64::MIN as int {
        i64::MIN as int
    } else {
        v
    }
}

/// Saturating addition on `i64`, exact with respect to `sat64`.
pub fn sat_add_i64(a: i64, b: i64) -> (r: i64)
    ensures
        r as int == sat64(a as int + b as int),
{
    let wide: i128 = a as i128 + b as i128;
    if wide > i64::MAX as i128 {
        i64::MAX
    } else if wide < i64::MIN as i128 {
        i64::MIN
    } else {
        wide as i64
    }
}

/// Saturating subtraction on `i64`, exact with respect to `sat64`.
pub fn sat_sub_i64(a: i64, b: i64) -> (r: i64)
    ensures
        r as int == sat64(a as int - b as int),
{
    let wide: i128 = a as i128 - b as i128;
    if wide > i64::MAX as i128 {
        i64::MAX
    } else if wide < i64::MIN as i128 {
        i64::MIN
    } else {
        wide as i64
    }
}

/// A screen point in virtual-desktop coordinates.
#[derive(Clone, Copy, Debug, PartialEq, Eq, Structural)]
pub struct Point {
    pub x: i64,
    pub y: i64,
}

/// A screen rectangle: origin plus extent.
#[derive(Clone, Copy, Debug, PartialEq, Eq, Structural)]
pub struct Rect {
    pub x: i64,
    pub y: i64,
    pub width: i64,
    pub height: i64,
}

impl Rect {
    /// Builds a rectangle from its origin and extent.
    pub fn from_xy(x: i64, y: i64, width: i64, height: i64) -> (r: Rect)
        ensures
            r == (Rect { x, y, width, height }),
    {
        Rect { x, y, width, height }
    }

    /// Builds a rectangle from its left, top, right and bottom edges.
    pub fn from_ltrb(left: i64, top: i64, right: i64, bottom: i64) -> (r: Rect)
        ensures
            r.x == left,
            r.y == top,
            r.width as int == sat64(right - left),
            r.height as int == sat64(bottom - top),
    {
        Rect {
            x: left,
            y: top,
            width: sat_sub_i64(right, left),
            height: sat_sub_i64(bottom, top),
        }
    }

    /// The rectangle moved by `(dx, dy)`; the extent is unchanged.
    pub fn translate(&self, dx: i64, dy: i64) -> (r: Rect)
        ensures
            r == self.spec_translate(dx, dy),
    {
        Rect {
            x: sat_add_i64(self.x, dx),
            y: sat_add_i64(self.y, dy),
            width: self.width,
            height: self.height,
        }
    }

    /// What `translate` returns.
    pub open spec fn spec_translate(self, dx: i64, dy: i64) -> Rect {
        Rect {
            x: sat64(self.x + dx) as i64,
            y: sat64(self.y + dy) as i64,
            width: self.width,
            height: self.height,
        }
    }
}

} // verus!
