use vstd::prelude::*;

verus! {

/// Sub-pixel units in one pixel.
pub const UNITS_PER_PIXEL: i64 = 1000;

/// Largest magnitude of an input coordinate or radius (2^40 units).
pub const COORD_LIMIT: i64 = 1099511627776;

/// Largest magnitude of a stored hexagon corner coordinate (2^44 units).
pub const CORNER_LIMIT: i64 = 17592186044416;

/// A point in integer sub-pixel units.
#[derive(Clone, Copy, Debug, PartialEq, Eq)]
pub struct Point {
    pub x: i64,
    pub y: i64,
}

pub open spec fn in_range(v: int) -> bool {
    -COORD_LIMIT <= v <= COORD_LIMIT
}

pub open spec fn abs(v: int) -> int {
    if v >= 0 { v } else { -v }
}

/// Half of `v`, rounded toward zero.
pub open spec fn half(v: int) -> int {
    if v >= 0 { v / 2 } else { -((-v) / 2) }
}

pub fn half_of(v: i64) -> (h: i64)
    ensures
        h == half(v as int),
{
    if v >= 0 {
        v / 2
    } else if v == i64::MIN {
        -(i64::MAX / 2) - 1
    } else {
        -((-v) / 2)
    }
}

} // verus!
