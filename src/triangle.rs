use vstd::prelude::*;
use crate::point::{cross_spec, small_cross, FixVec};

verus! {

/// Doubled signed area of the triangle `p0, p1, p2`: positive when the
/// triangle turns clockwise, zero when the three points are on one line.
pub open spec fn area_two(p0: FixVec, p1: FixVec, p2: FixVec) -> int {
    cross_spec(p1.x - p0.x, p1.y - p0.y, p1.x - p2.x, p1.y - p2.y)
}

/// The sign of `a`: `-1`, `0` or `1`.
pub open spec fn sign(a: int) -> int {
    if a < 0 {
        -1
    } else if a > 0 {
        1
    } else {
        0
    }
}

/// Predicates on triangles of fixed-point lattice points.
pub struct Triangle;

impl Triangle {
    /// Doubled signed area of the triangle `p0, p1, p2`.
    pub fn unsafe_area_two(p0: FixVec, p1: FixVec, p2: FixVec) -> (r: i64)
        requires
            p0.fits(),
            p1.fits(),
            p2.fits(),
        ensures
            r == area_two(p0, p1, p2),
    {
        small_cross(p1.x - p0.x, p1.y - p0.y, p1.x - p2.x, p1.y - p2.y)
    }

    /// Signed area of the triangle, rounded toward zero.
    pub fn unsafe_area(p0: FixVec, p1: FixVec, p2: FixVec) -> (r: i64)
        requires
            p0.fits(),
            p1.fits(),
            p2.fits(),
        ensures
            r == crate::point::div_trunc(area_two(p0, p1, p2), 2),
    {
        Self::unsafe_area_two(p0, p1, p2) / 2
    }

    /// The triangle turns clockwise.
    pub fn is_clockwise(p0: FixVec, p1: FixVec, p2: FixVec) -> (r: bool)
        requires
            p0.fits(),
            p1.fits(),
            p2.fits(),
        ensures
            r == (area_two(p0, p1, p2) > 0),
    {
        Self::unsafe_area_two(p0, p1, p2) > 0
    }

    /// The triangle turns clockwise or is flat.
    pub fn is_cw_or_line(p0: FixVec, p1: FixVec, p2: FixVec) -> (r: bool)
        requires
            p0.fits(),
            p1.fits(),
            p2.fits(),
        ensures
            r == (area_two(p0, p1, p2) >= 0),
    {
        Self::unsafe_area_two(p0, p1, p2) >= 0
    }

    /// The three points are not on one line.
    pub fn is_not_line(p0: FixVec, p1: FixVec, p2: FixVec) -> (r: bool)
        requires
            p0.fits(),
            p1.fits(),
            p2.fits(),
        ensures
            r == (area_two(p0, p1, p2) != 0),
    {
        Self::unsafe_area_two(p0, p1, p2) != 0
    }

    /// `1` for a clockwise triangle, `-1` for a counter-clockwise one, `0` for a flat one.
    pub fn clock_direction(p0: FixVec, p1: FixVec, p2: FixVec) -> (r: i64)
        requires
            p0.fits(),
            p1.fits(),
            p2.fits(),
        ensures
            r == sign(area_two(p0, p1, p2)),
    {
        let area = Self::unsafe_area_two(p0, p1, p2);
        if area < 0 {
            return -1;
        }
        if area > 0 {
            return 1;
        }
        0
    }

    /// `p` lies inside the triangle or on its border.
    pub fn is_contain(p: FixVec, p0: FixVec, p1: FixVec, p2: FixVec) -> (r: bool)
        requires
            p.fits(),
            p0.fits(),
            p1.fits(),
            p2.fits(),
        ensures
            ({
                let q0 = cross_spec(p.x - p1.x, p.y - p1.y, p0.x - p1.x, p0.y - p1.y);
                let q1 = cross_spec(p.x - p2.x, p.y - p2.y, p1.x - p2.x, p1.y - p2.y);
                let q2 = cross_spec(p.x - p0.x, p.y - p0.y, p2.x - p0.x, p2.y - p0.y);
                r == !((q0 < 0 || q1 < 0 || q2 < 0) && (q0 > 0 || q1 > 0 || q2 > 0))
            }),
    {
        let q0 = small_cross(p.x - p1.x, p.y - p1.y, p0.x - p1.x, p0.y - p1.y);
        let q1 = small_cross(p.x - p2.x, p.y - p2.y, p1.x - p2.x, p1.y - p2.y);
        let q2 = small_cross(p.x - p0.x, p.y - p0.y, p2.x - p0.x, p2.y - p0.y);

        let has_neg = q0 < 0 || q1 < 0 || q2 < 0;
        let has_pos = q0 > 0 || q1 > 0 || q2 > 0;

        !(has_neg && has_pos)
    }

    /// `p` lies outside the triangle or on its border.
    pub fn is_not_contain(p: FixVec, p0: FixVec, p1: FixVec, p2: FixVec) -> (r: bool)
        requires
            p.fits(),
            p0.fits(),
            p1.fits(),
            p2.fits(),
        ensures
            ({
                let q0 = cross_spec(p.x - p1.x, p.y - p1.y, p0.x - p1.x, p0.y - p1.y);
                let q1 = cross_spec(p.x - p2.x, p.y - p2.y, p1.x - p2.x, p1.y - p2.y);
                let q2 = cross_spec(p.x - p0.x, p.y - p0.y, p2.x - p0.x, p2.y - p0.y);
                r == ((q0 <= 0 || q1 <= 0 || q2 <= 0) && (q0 >= 0 || q1 >= 0 || q2 >= 0))
            }),
    {
        let q0 = small_cross(p.x - p1.x, p.y - p1.y, p0.x - p1.x, p0.y - p1.y);
        let q1 = small_cross(p.x - p2.x, p.y - p2.y, p1.x - p2.x, p1.y - p2.y);
        let q2 = small_cross(p.x - p0.x, p.y - p0.y, p2.x - p0.x, p2.y - p0.y);

        let has_neg = q0 <= 0 || q1 <= 0 || q2 <= 0;
        let has_pos = q0 >= 0 || q1 >= 0 || q2 >= 0;

        has_neg && has_pos
    }
}

} // verus!
