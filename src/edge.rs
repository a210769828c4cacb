use vstd::prelude::*;
use crate::bnd::{bnd_of, FixBnd};
use crate::point::{abs, div_toward_zero, div_trunc, FixVec};
use crate::triangle::{area_two, Triangle};

verus! {

/// What two segments do to each other.
#[derive(Clone, Copy, Debug, PartialEq, Eq, Structural)]
pub enum EdgeCrossType {
    NotCross,
    /// The segments cross at one point inside both.
    Pure,
    /// The second segment lies inside the first, touching neither end of it.
    OverlayA,
    /// The first segment lies inside the second, touching neither end of it.
    OverlayB,
    /// The segments overlap on one line, neither inside the other.
    Penetrate,
    /// The crossing point is an end of the first segment.
    EndA,
    /// The crossing point is an end of the second segment.
    EndB,
}

/// A crossing of two segments: its kind, its point, and for `Penetrate`
/// a second point.
#[derive(Clone, Copy, Debug, PartialEq, Eq, Structural)]
pub struct EdgeCross {
    pub nature: EdgeCrossType,
    pub point: FixVec,
    pub second: FixVec,
}

/// A directed segment from `e0` to `e1`.
#[derive(Clone, Copy, Debug, PartialEq, Eq, Structural)]
pub struct FixEdge {
    pub e0: FixVec,
    pub e1: FixVec,
}

/// The origin.
pub open spec fn origin() -> FixVec {
    FixVec { x: 0, y: 0 }
}

/// A crossing of kind `nature` at `p`, with no second point.
pub open spec fn at_point(nature: EdgeCrossType, p: FixVec) -> EdgeCross {
    EdgeCross { nature, point: p, second: origin() }
}

/// The two areas have strictly opposite signs.
pub open spec fn opposite(a: int, b: int) -> bool {
    a > 0 && b < 0 || a < 0 && b > 0
}

/// The two areas are not of one strict sign and not both zero: the ends of
/// a segment lie on different sides of a line, or one of them on it.
pub open spec fn straddles(a: int, b: int) -> bool {
    !(a > 0 && b > 0) && !(a < 0 && b < 0) && !(a == 0 && b == 0)
}

/// `p` lies inside the bounding box of `e`, border included.
pub open spec fn box_contains(e: FixEdge, p: FixVec) -> bool {
    (e.e0.x <= p.x <= e.e1.x || e.e1.x <= p.x <= e.e0.x) && (e.e0.y <= p.y <= e.e1.y || e.e1.y <= p.y
        <= e.e0.y)
}

/// The segments have a common end.
pub open spec fn shares_end(a: FixEdge, b: FixEdge) -> bool {
    a.e0 == b.e0 || a.e0 == b.e1 || a.e1 == b.e0 || a.e1 == b.e1
}

/// All four ends lie in the range where the classifier's arithmetic is exact.
pub open spec fn edges_fit(a: FixEdge, b: FixEdge) -> bool {
    a.e0.fits() && a.e1.fits() && b.e0.fits() && b.e1.fits()
}

/// The crossing point of the lines through `a0, a1` and `b0, b1`, computed
/// relative to `a0` and rounded toward `a0`.
pub open spec fn cross_point_spec(a0: FixVec, a1: FixVec, b0: FixVec, b1: FixVec) -> (int, int) {
    let ax = a1.x - a0.x;
    let ay = a1.y - a0.y;
    let b0x = b0.x - a0.x;
    let b0y = b0.y - a0.y;
    let b1x = b1.x - a0.x;
    let b1y = b1.y - a0.y;
    let dy_b = b0y - b1y;
    let dx_b = b0x - b1x;
    let xy_b = b0x * b1y - b0y * b1x;
    if ax == 0 {
        (a0.x as int, a0.y + div_trunc(xy_b, dx_b))
    } else if ay == 0 {
        (a0.x + div_trunc(-xy_b, dy_b), a0.y as int)
    } else {
        let divider = ay * dx_b - ax * dy_b;
        (a0.x + div_trunc(ax * xy_b, divider), a0.y + div_trunc(ay * xy_b, divider))
    }
}

/// How two segments on one line overlap.
pub open spec fn same_line_spec(a: FixEdge, b: FixEdge) -> Option<EdgeCross> {
    let ba = bnd_of(a.e0, a.e1);
    let bb = bnd_of(b.e0, b.e1);
    if !ba.collides(bb) {
        None
    } else if ba.holds_box(bb) && bb.holds_box(ba) {
        None
    } else if ba.holds_box(bb) {
        if b.e0 == a.e0 || b.e0 == a.e1 {
            Some(at_point(EdgeCrossType::EndB, b.e1))
        } else if b.e1 == a.e0 || b.e1 == a.e1 {
            Some(at_point(EdgeCrossType::EndB, b.e0))
        } else {
            Some(at_point(EdgeCrossType::OverlayB, origin()))
        }
    } else if bb.holds_box(ba) {
        if a.e0 == b.e0 || a.e0 == b.e1 {
            Some(at_point(EdgeCrossType::EndA, a.e1))
        } else if a.e1 == b.e0 || a.e1 == b.e1 {
            Some(at_point(EdgeCrossType::EndA, a.e0))
        } else {
            Some(at_point(EdgeCrossType::OverlayA, origin()))
        }
    } else if shares_end(a, b) {
        None
    } else {
        Some(
            EdgeCross {
                nature: EdgeCrossType::Penetrate,
                point: if ba.holds_point(b.e0) { b.e0 } else { b.e1 },
                second: if bb.holds_point(a.e0) { a.e0 } else { a.e1 },
            },
        )
    }
}

/// How the segment `a` crosses the segment `b`; `None` when they do not cross.
pub open spec fn edge_cross_spec(a: FixEdge, b: FixEdge) -> Option<EdgeCross> {
    let a0_area = area_two(b.e0, a.e0, b.e1);
    let a1_area = area_two(b.e0, a.e1, b.e1);
    let b0_area = area_two(a.e0, b.e0, a.e1);
    let b1_area = area_two(a.e0, b.e1, a.e1);
    if a0_area == 0 && a1_area == 0 {
        same_line_spec(a, b)
    } else if shares_end(a, b) {
        None
    } else if a0_area == 0 {
        if box_contains(b, a.e0) {
            Some(at_point(EdgeCrossType::EndA, a.e0))
        } else {
            None
        }
    } else if a1_area == 0 {
        if box_contains(b, a.e1) {
            Some(at_point(EdgeCrossType::EndA, a.e1))
        } else {
            None
        }
    } else if b0_area == 0 {
        if box_contains(a, b.e0) {
            Some(at_point(EdgeCrossType::EndB, b.e0))
        } else {
            None
        }
    } else if b1_area == 0 {
        if box_contains(a, b.e1) {
            Some(at_point(EdgeCrossType::EndB, b.e1))
        } else {
            None
        }
    } else if !(opposite(a0_area, a1_area) && opposite(b0_area, b1_area)) {
        None
    } else {
        let c = cross_point_spec(a.e0, a.e1, b.e0, b.e1);
        let p = FixVec { x: c.0 as i64, y: c.1 as i64 };
        if p == a.e0 || p == a.e1 {
            Some(at_point(EdgeCrossType::EndA, p))
        } else if p == b.e0 || p == b.e1 {
            Some(at_point(EdgeCrossType::EndB, p))
        } else {
            Some(at_point(EdgeCrossType::Pure, p))
        }
    }
}

/// A quotient whose dividend is at most `m` times the divisor in magnitude
/// is at most `m` in magnitude.
proof fn lemma_div_bound(n: int, d: int, m: int)
    requires
        d != 0,
        m > 0,
        abs(n) <= m * abs(d),
    ensures
        abs(div_trunc(n, d)) <= m,
{
    let an = abs(n);
    let ad = abs(d);
    assert(an / ad <= m) by (nonlinear_arith)
        requires
            an >= 0,
            ad > 0,
            an <= m * ad,
    {
        assert(an == ad * (an / ad) + an % ad);
        assert(an % ad >= 0);
    }
    assert(an / ad >= 0) by (nonlinear_arith)
        requires
            an >= 0,
            ad > 0,
    ;
}

/// The area spanned at the far end of a segment that starts at the origin.
proof fn lemma_translated_area(ax: int, ay: int, b0x: int, b0y: int, b1x: int, b1y: int)
    ensures
        (ax - b0x) * (ay - b1y) - (ay - b0y) * (ax - b1x) == (b0x * b1y - b0y * b1x) - (ay * (b0x - b1x)
            - ax * (b0y - b1y)),
{
    assert((ax - b0x) * (ay - b1y) - (ay - b0y) * (ax - b1x) == (b0x * b1y - b0y * b1x) - (ay * (b0x
        - b1x) - ax * (b0y - b1y))) by (nonlinear_arith);
}

proof fn lemma_mul_abs(a: int, b: int)
    ensures
        abs(a * b) == abs(a) * abs(b),
{
    assert(abs(a * b) == abs(a) * abs(b)) by (nonlinear_arith);
}

impl FixEdge {
    pub fn new(e0: FixVec, e1: FixVec) -> (r: FixEdge)
        ensures
            r.e0 == e0,
            r.e1 == e1,
    {
        FixEdge { e0, e1 }
    }

    /// How this segment crosses `other`; `None` when they do not cross, touch
    /// only at a common end, or are equal.
    pub fn cross(&self, other: FixEdge) -> (r: Option<EdgeCross>)
        requires
            edges_fit(*self, other),
        ensures
            r == edge_cross_spec(*self, other),
    {
        let a0 = self.e0;
        let a1 = self.e1;

        let b0 = other.e0;
        let b1 = other.e1;

        let a0_area = Triangle::unsafe_area_two(b0, a0, b1);
        let a1_area = Triangle::unsafe_area_two(b0, a1, b1);

        if a0_area == 0 && a1_area == 0 {
            return FixEdge::same_line_overlay(*self, other);
        }

        let com_a0 = a0 == b0 || a0 == b1;
        let com_a1 = a1 == b0 || a1 == b1;

        let has_same_end = com_a0 || com_a1;

        if has_same_end {
            return None;
        }

        if a0_area == 0 {
            if other.is_box_contain(a0) {
                return Some(EdgeCross { nature: EdgeCrossType::EndA, point: a0, second: FixVec::zero() });
            } else {
                return None;
            }
        }

        if a1_area == 0 {
            if other.is_box_contain(a1) {
                return Some(EdgeCross { nature: EdgeCrossType::EndA, point: a1, second: FixVec::zero() });
            } else {
                return None;
            }
        }

        let b0_area = Triangle::unsafe_area_two(a0, b0, a1);

        if b0_area == 0 {
            if self.is_box_contain(b0) {
                return Some(EdgeCross { nature: EdgeCrossType::EndB, point: b0, second: FixVec::zero() });
            } else {
                return None;
            }
        }

        let b1_area = Triangle::unsafe_area_two(a0, b1, a1);

        if b1_area == 0 {
            if self.is_box_contain(b1) {
                return Some(EdgeCross { nature: EdgeCrossType::EndB, point: b1, second: FixVec::zero() });
            } else {
                return None;
            }
        }

        // the ends of each segment must lie on opposite sides of the other's line
        let area_a = a0_area > 0 && a1_area < 0 || a0_area < 0 && a1_area > 0;
        let area_b = b0_area > 0 && b1_area < 0 || b0_area < 0 && b1_area > 0;

        if !(area_a && area_b) {
            return None;
        }

        let p = FixEdge::cross_point(a0, a1, b0, b1);

        // rounding may still land the point on an end
        let end_a = a0 == p || a1 == p;
        let end_b = b0 == p || b1 == p;

        let nature = if end_a {
            EdgeCrossType::EndA
        } else if end_b {
            EdgeCrossType::EndB
        } else {
            EdgeCrossType::Pure
        };

        Some(EdgeCross { nature, point: p, second: FixVec::zero() })
    }

    /// The crossing point of the lines through `a0, a1` and `b0, b1`, where
    /// the ends of the first segment are not on one side of the other's line
    /// (either may be on it, not both), so the crossing lies on the first segment.
    /// Everything is moved by `-a0` first, which keeps the products small; the
    /// general case divides in 128 bits.
    fn cross_point(a0: FixVec, a1: FixVec, b0: FixVec, b1: FixVec) -> (r: FixVec)
        requires
            a0.fits(),
            a1.fits(),
            b0.fits(),
            b1.fits(),
            straddles(area_two(b0, a0, b1), area_two(b0, a1, b1)),
        ensures
            r.x == cross_point_spec(a0, a1, b0, b1).0,
            r.y == cross_point_spec(a0, a1, b0, b1).1,
    {
        let a0x = a0.x;
        let a0y = a0.y;

        let a1x = a1.x - a0x;
        let b0x = b0.x - a0x;
        let b1x = b1.x - a0x;

        let a1y = a1.y - a0y;
        let b0y = b0.y - a0y;
        let b1y = b1.y - a0y;

        let dy_b = b0y - b1y;
        let dx_b = b0x - b1x;

        let xy_b = crate::point::small_cross(b0x, b0y, b1x, b1y);

        let ghost area0 = area_two(b0, a0, b1);
        let ghost area1 = area_two(b0, a1, b1);
        let ghost divider = a1y * dx_b - a1x * dy_b;
        proof {
            assert(area0 == xy_b) by (nonlinear_arith)
                requires
                    area0 == (a0.x - b0.x) * (a0.y - b1.y) - (a0.y - b0.y) * (a0.x - b1.x),
                    b0x == b0.x - a0.x,
                    b0y == b0.y - a0.y,
                    b1x == b1.x - a0.x,
                    b1y == b1.y - a0.y,
                    xy_b == b0x * b1y - b0y * b1x,
            ;
            lemma_translated_area(a1x as int, a1y as int, b0x as int, b0y as int, b1x as int, b1y as int);
            assert(area1 == (a1x - b0x) * (a1y - b1y) - (a1y - b0y) * (a1x - b1x));
            assert(area1 == xy_b - divider);
            assert(abs(xy_b as int) <= abs(divider));
            assert(divider != 0);
        }

        let x0: i64;
        let y0: i64;

        if a1x == 0 {
            proof {
                assert(divider == a1y * dx_b) by (nonlinear_arith)
                    requires
                        a1x == 0,
                        divider == a1y * dx_b - a1x * dy_b,
                ;
                lemma_mul_abs(a1y as int, dx_b as int);
                assert(divider != 0);
                assert(dx_b != 0) by (nonlinear_arith)
                    requires
                        divider == a1y * dx_b,
                        divider != 0,
                ;
                assert(abs(a1y as int) > 0);
                lemma_div_bound(xy_b as int, dx_b as int, abs(a1y as int));
            }
            x0 = 0;
            y0 = div_toward_zero(xy_b as i128, dx_b as i128) as i64;
        } else if a1y == 0 {
            proof {
                assert(divider == -(a1x * dy_b)) by (nonlinear_arith)
                    requires
                        a1y == 0,
                        divider == a1y * dx_b - a1x * dy_b,
                ;
                lemma_mul_abs(a1x as int, dy_b as int);
                assert(divider != 0);
                assert(dy_b != 0) by (nonlinear_arith)
                    requires
                        divider == -(a1x * dy_b),
                        divider != 0,
                ;
                lemma_div_bound(-xy_b, dy_b as int, abs(a1x as int));
            }
            y0 = 0;
            x0 = div_toward_zero(-xy_b as i128, dy_b as i128) as i64;
        } else {
            let a1x_128 = a1x as i128;
            let a1y_128 = a1y as i128;
            proof {
                assert(-0x8000_0000_0000_0000_0000_0000 < a1x_128 * xy_b < 0x8000_0000_0000_0000_0000_0000) by (nonlinear_arith)
                    requires
                        -0x8000_0000 < a1x_128 < 0x8000_0000,
                        -0x8000_0000_0000_0000 < xy_b < 0x8000_0000_0000_0000,
                ;
                assert(-0x8000_0000_0000_0000_0000_0000 < a1y_128 * xy_b < 0x8000_0000_0000_0000_0000_0000) by (nonlinear_arith)
                    requires
                        -0x8000_0000 < a1y_128 < 0x8000_0000,
                        -0x8000_0000_0000_0000 < xy_b < 0x8000_0000_0000_0000,
                ;
                assert(-0x8000_0000_0000_0000 < a1y_128 * dx_b < 0x8000_0000_0000_0000) by (nonlinear_arith)
                    requires
                        -0x8000_0000 < a1y_128 < 0x8000_0000,
                        -0x8000_0000 < dx_b < 0x8000_0000,
                ;
                assert(-0x8000_0000_0000_0000 < a1x_128 * dy_b < 0x8000_0000_0000_0000) by (nonlinear_arith)
                    requires
                        -0x8000_0000 < a1x_128 < 0x8000_0000,
                        -0x8000_0000 < dy_b < 0x8000_0000,
                ;
            }
            let kx = a1x_128 * xy_b as i128;
            let ky = a1y_128 * xy_b as i128;

            let divider_128 = a1y_128 * dx_b as i128 - a1x_128 * dy_b as i128;
            proof {
                lemma_mul_abs(a1x as int, xy_b as int);
                lemma_mul_abs(a1y as int, xy_b as int);
                assert(abs(a1x as int) * abs(xy_b as int) <= abs(a1x as int) * abs(divider)) by (nonlinear_arith)
                    requires
                        abs(a1x as int) > 0,
                        abs(xy_b as int) <= abs(divider),
                ;
                assert(abs(a1y as int) * abs(xy_b as int) <= abs(a1y as int) * abs(divider)) by (nonlinear_arith)
                    requires
                        abs(a1y as int) > 0,
                        abs(xy_b as int) <= abs(divider),
                ;
                lemma_div_bound(kx as int, divider, abs(a1x as int));
                lemma_div_bound(ky as int, divider, abs(a1y as int));
            }
            x0 = div_toward_zero(kx, divider_128) as i64;
            y0 = div_toward_zero(ky, divider_128) as i64;
        }

        let x = x0 + a0x;
        let y = y0 + a0y;

        FixVec::new(x, y)
    }

    /// `p` lies inside this segment's bounding box, border included.
    pub fn is_box_contain(&self, p: FixVec) -> (r: bool)
        ensures
            r == box_contains(*self, p),
    {
        let x = self.e0.x <= p.x && p.x <= self.e1.x || self.e1.x <= p.x && p.x <= self.e0.x;
        let y = self.e0.y <= p.y && p.y <= self.e1.y || self.e1.y <= p.y && p.y <= self.e0.y;

        x && y
    }

    /// How two segments on one line overlap, judged by their bounding boxes.
    fn same_line_overlay(edge_a: FixEdge, edge_b: FixEdge) -> (r: Option<EdgeCross>)
        ensures
            r == same_line_spec(edge_a, edge_b),
    {
        let a = FixBnd::new_two_points(edge_a.e0, edge_a.e1);
        let b = FixBnd::new_two_points(edge_b.e0, edge_b.e1);

        if !a.is_collide(b) {
            return None;
        }

        let is_a = a.is_inside(b);  // b inside a
        let is_b = b.is_inside(a);  // a inside b

        if is_a && is_b {
            // the segments are equal
            return None;
        }

        if is_a {
            let is_be0 = edge_b.e0 == edge_a.e0 || edge_b.e0 == edge_a.e1;
            let is_be1 = edge_b.e1 == edge_a.e0 || edge_b.e1 == edge_a.e1;

            if is_be0 {
                return Some(EdgeCross { nature: EdgeCrossType::EndB, point: edge_b.e1, second: FixVec::zero() });
            } else if is_be1 {
                return Some(EdgeCross { nature: EdgeCrossType::EndB, point: edge_b.e0, second: FixVec::zero() });
            } else {
                return Some(EdgeCross { nature: EdgeCrossType::OverlayB, point: FixVec::zero(), second: FixVec::zero() });
            }
        }

        if is_b {
            let is_ae0 = edge_a.e0 == edge_b.e0 || edge_a.e0 == edge_b.e1;
            let is_ae1 = edge_a.e1 == edge_b.e0 || edge_a.e1 == edge_b.e1;

            if is_ae0 {
                return Some(EdgeCross { nature: EdgeCrossType::EndA, point: edge_a.e1, second: FixVec::zero() });
            } else if is_ae1 {
                return Some(EdgeCross { nature: EdgeCrossType::EndA, point: edge_a.e0, second: FixVec::zero() });
            } else {
                return Some(EdgeCross { nature: EdgeCrossType::OverlayA, point: FixVec::zero(), second: FixVec::zero() });
            }
        }

        let has_same_end = edge_a.e0 == edge_b.e0 || edge_a.e0 == edge_b.e1 || edge_a.e1 == edge_b.e0
            || edge_a.e1 == edge_b.e1;

        if has_same_end {
            return None;
        }

        let ap = if a.is_contain(edge_b.e0) { edge_b.e0 } else { edge_b.e1 };
        let bp = if b.is_contain(edge_a.e0) { edge_a.e0 } else { edge_a.e1 };

        Some(EdgeCross { nature: EdgeCrossType::Penetrate, point: ap, second: bp })
    }
}

} // verus!
