use vstd::prelude::*;
use crate::contour::{contour_clean, contour_outcome};
use crate::point::{Defect, LatticePoint};
use crate::repair::{coords_of, repair_post, Repair};
use crate::ring::{chain_area, nxt, prv, ring_area, wedge};
use crate::edge::{edge_cross_spec, edges_fit, opposite, shares_end, EdgeCross, EdgeCrossType, FixEdge};
use crate::point::{cross_spec, FixVec};
use crate::triangle::area_two;
use crate::path::area_two_of;
use crate::point::IntPoint;
use crate::ring::{lemma_wrap64_range, lemma_wrap64_unique, wrap64};

verus! {

/// Repairing a contour a second time changes nothing: whatever a repair
/// returns is clean, so every repair of it reports `Unchanged`.
pub proof fn lemma_repair_idempotent<P: LatticePoint>(kind: Defect, c: Seq<P>, out: Seq<P>, again: Repair<P>)
    requires
        contour_outcome(kind, c, Some(out)),
        repair_post(kind, out, again),
    ensures
        again is Unchanged,
{
}

/// After collinear repair no point of the result lies on the line through
/// its two neighbours.
pub proof fn lemma_repair_minimal<P: LatticePoint>(c: Seq<P>, out: Seq<P>, a: int)
    requires
        contour_outcome(Defect::Collinear, c, Some(out)),
        0 <= a < out.len(),
    ensures
        out.len() >= 3,
        ({
            let s = coords_of(out);
            let n = out.len() as int;
            !Defect::Collinear.holds(s[prv(a, n)], s[a], s[nxt(a, n)])
        }),
{
    let s = coords_of(out);
    assert(!crate::repair::defect_at(Defect::Collinear, s, a));
}

/// A contour whose only defects are straight points (no reversal) is left
/// alone by spike removal, while collinear repair takes points out of it
/// whenever it encloses some area.
pub proof fn lemma_spike_vs_collinear<P: LatticePoint>(c: Seq<P>, by_spike: Repair<P>, by_line: Repair<P>)
    requires
        contour_clean(Defect::Spike, c),
        !contour_clean(Defect::Collinear, c),
        ring_area(coords_of(c)) != 0,
        repair_post(Defect::Spike, c, by_spike),
        repair_post(Defect::Collinear, c, by_line),
    ensures
        by_spike is Unchanged,
        by_line is Repaired,
        by_line->0@.len() < c.len(),
{
}

/// The doubled signed area changes sign, and keeps its magnitude, when the
/// order of the points is reversed.
pub proof fn lemma_reverse_area(s: Seq<(int, int)>)
    ensures
        ring_area(s.reverse()) == -ring_area(s),
{
    if s.len() >= 1 {
        lemma_chain_reverse(s);
        let r = s.reverse();
        assert(r[0] == s.last());
        assert(r.last() == s[0]);
        assert(wedge(s.last(), s[0]) == -wedge(s[0], s.last())) by (nonlinear_arith);
    }
}

/// Reversing a contour negates its 64-bit doubled area with wrapping, so its
/// magnitude is kept whenever the area is not `-2^63`.
pub proof fn lemma_reverse_area_two(s: Seq<IntPoint>)
    ensures
        area_two_of(s.reverse()) == wrap64(-area_two_of(s)),
        area_two_of(s) != -0x8000_0000_0000_0000 ==> area_two_of(s.reverse()) == -area_two_of(s),
{
    assert(coords_of(s.reverse()) =~= coords_of(s).reverse());
    lemma_reverse_area(coords_of(s));
    let a = ring_area(coords_of(s));
    let w = wrap64(a);
    lemma_wrap64_range(a);
    let k = (a + 0x8000_0000_0000_0000) / 0x1_0000_0000_0000_0000;
    lemma_wrap64_range(-w);
    let k2 = (-w + 0x8000_0000_0000_0000) / 0x1_0000_0000_0000_0000;
    lemma_wrap64_unique(-a, wrap64(-w), k2 - k);
    if w != -0x8000_0000_0000_0000 {
        lemma_wrap64_unique(-w, -w, 0);
    }
}

proof fn lemma_chain_reverse(s: Seq<(int, int)>)
    ensures
        chain_area(s.reverse()) == -chain_area(s),
    decreases s.len(),
{
    if s.len() >= 2 {
        let t = s.drop_last();
        let x = s.last();
        lemma_chain_reverse(t);
        assert(s.reverse() =~= seq![x] + t.reverse());
        lemma_chain_front(x, t.reverse());
        assert(t.reverse()[0] == t.last());
        assert(t.last() == s[s.len() - 2]);
        assert(wedge(t.last(), x) == -wedge(x, t.last())) by (nonlinear_arith);
    } else if s.len() == 1 {
        assert(s.reverse() =~= s);
    } else {
        assert(s.reverse() =~= s);
    }
}

proof fn lemma_chain_front(x: (int, int), t: Seq<(int, int)>)
    requires
        t.len() >= 1,
    ensures
        chain_area(seq![x] + t) == chain_area(t) + wedge(t[0], x),
{
    crate::ring::lemma_chain_concat(seq![x], t);
    assert(chain_area(seq![x]) == 0);
}

/// The same crossing seen with the two segments' roles exchanged.
pub open spec fn swap_roles(r: Option<EdgeCross>) -> Option<EdgeCross> {
    match r {
        None => None,
        Some(c) => Some(
            match c.nature {
                EdgeCrossType::EndA => EdgeCross { nature: EdgeCrossType::EndB, ..c },
                EdgeCrossType::EndB => EdgeCross { nature: EdgeCrossType::EndA, ..c },
                EdgeCrossType::OverlayA => EdgeCross { nature: EdgeCrossType::OverlayB, ..c },
                EdgeCrossType::OverlayB => EdgeCross { nature: EdgeCrossType::OverlayA, ..c },
                EdgeCrossType::Penetrate => EdgeCross { nature: EdgeCrossType::Penetrate, point: c.second, second: c.point },
                _ => c,
            },
        ),
    }
}

/// The segments cross at a single interior point, the one case in which the
/// crossing point is computed and rounded.
pub open spec fn proper_crossing(a: FixEdge, b: FixEdge) -> bool {
    let a0_area = area_two(b.e0, a.e0, b.e1);
    let a1_area = area_two(b.e0, a.e1, b.e1);
    let b0_area = area_two(a.e0, b.e0, a.e1);
    let b1_area = area_two(a.e0, b.e1, a.e1);
    &&& !shares_end(a, b)
    &&& opposite(a0_area, a1_area)
    &&& opposite(b0_area, b1_area)
}

/// `x` lies on the line through `y0` and `y1`.
pub open spec fn on_line(x: FixVec, y0: FixVec, y1: FixVec) -> bool {
    cross_spec(x.x - y0.x, x.y - y0.y, x.x - y1.x, x.y - y1.y) == 0
}

/// A coordinate of `u` times the cross product of `a` and `b`, expanded.
proof fn lemma_scaled_cross(ux: int, uy: int, ax: int, ay: int, bx: int, by: int)
    ensures
        ux * (ax * by - ay * bx) == ax * (ux * by - uy * bx) - bx * (ux * ay - uy * ax),
{
    assert(ux * (ax * by - ay * bx) == ax * (ux * by - uy * bx) - bx * (ux * ay - uy * ax)) by (nonlinear_arith);
}

/// The other coordinate of `u` times the cross product of `a` and `b`, expanded.
proof fn lemma_scaled_cross_y(ux: int, uy: int, ax: int, ay: int, bx: int, by: int)
    ensures
        uy * (ax * by - ay * bx) == ay * (ux * by - uy * bx) - by * (ux * ay - uy * ax),
{
    assert(uy * (ax * by - ay * bx) == ay * (ux * by - uy * bx) - by * (ux * ay - uy * ax)) by (nonlinear_arith);
}

/// The cross product of `d - u` and `d - v`, expanded.
proof fn lemma_cross_shift(ux: int, uy: int, vx: int, vy: int, dx: int, dy: int)
    ensures
        cross_spec(dx - ux, dy - uy, dx - vx, dy - vy) == cross_spec(ux, uy, vx, vy) - cross_spec(ux, uy, dx, dy)
            + cross_spec(vx, vy, dx, dy),
{
    assert((dx - ux) * (dy - vy) - (dy - uy) * (dx - vx) == (ux * vy - uy * vx) - (ux * dy - uy * dx) + (vx * dy
        - vy * dx)) by (nonlinear_arith);
}

/// Cross products of vectors parallel to one non-zero vector vanish.
proof fn lemma_parallel(ux: int, uy: int, ax: int, ay: int, bx: int, by: int)
    requires
        ux != 0 || uy != 0,
        cross_spec(ux, uy, ax, ay) == 0,
        cross_spec(ux, uy, bx, by) == 0,
    ensures
        cross_spec(ax, ay, bx, by) == 0,
{
    lemma_scaled_cross(ux, uy, ax, ay, bx, by);
    lemma_scaled_cross_y(ux, uy, ax, ay, bx, by);
    if ux != 0 {
        assert(cross_spec(ax, ay, bx, by) == 0) by (nonlinear_arith)
            requires ux != 0, ux * cross_spec(ax, ay, bx, by) == 0;
    } else {
        assert(cross_spec(ax, ay, bx, by) == 0) by (nonlinear_arith)
            requires uy != 0, uy * cross_spec(ax, ay, bx, by) == 0;
    }
}

/// If the end `p` of segment `p p2` lies on the line of `q q2`, and the end
/// `q` lies on the line of `p p2`, at a different point, then `p2` lies on
/// the line of `q q2` too: the segments share their line.
proof fn lemma_shared_line(p: FixVec, p2: FixVec, q: FixVec, q2: FixVec)
    requires
        on_line(p, q, q2),
        on_line(q, p, p2),
        p != q,
    ensures
        on_line(p2, q, q2),
{
    let ux = q.x - p.x;
    let uy = q.y - p.y;
    let ax = p2.x - p.x;
    let ay = p2.y - p.y;
    let bx = q2.x - q.x;
    let by = q2.y - q.y;
    assert(cross_spec(p.x - q.x, p.y - q.y, p.x - q2.x, p.y - q2.y) == cross_spec(ux, uy, bx, by)) by (nonlinear_arith)
        requires ux == q.x - p.x, uy == q.y - p.y, bx == q2.x - q.x, by == q2.y - q.y;
    assert(cross_spec(q.x - p.x, q.y - p.y, q.x - p2.x, q.y - p2.y) == -cross_spec(ux, uy, ax, ay)) by (nonlinear_arith)
        requires ux == q.x - p.x, uy == q.y - p.y, ax == p2.x - p.x, ay == p2.y - p.y;
    assert(ux != 0 || uy != 0);
    lemma_parallel(ux, uy, ax, ay, bx, by);
    assert(cross_spec(p2.x - q.x, p2.y - q.y, p2.x - q2.x, p2.y - q2.y) == cross_spec(ux, uy, bx, by) - cross_spec(ax, ay, bx, by))
        by (nonlinear_arith)
        requires ux == q.x - p.x, uy == q.y - p.y, ax == p2.x - p.x, ay == p2.y - p.y, bx == q2.x - q.x, by == q2.y - q.y;
}

/// Being on a line does not depend on the order of the two points naming it.
proof fn lemma_on_line_swap(x: FixVec, y0: FixVec, y1: FixVec)
    ensures
        on_line(x, y0, y1) == on_line(x, y1, y0),
{
    assert(cross_spec(x.x - y0.x, x.y - y0.y, x.x - y1.x, x.y - y1.y) == -cross_spec(
        x.x - y1.x,
        x.y - y1.y,
        x.x - y0.x,
        x.y - y0.y,
    )) by (nonlinear_arith);
}

/// When both ends of a segment of non-zero length lie on the line of
/// another segment, both ends of that one lie on the line of the first.
proof fn lemma_collinear_both_ways(p: FixVec, p2: FixVec, q: FixVec, q2: FixVec)
    requires
        on_line(p, q, q2),
        on_line(p2, q, q2),
        p != p2,
        q != q2,
    ensures
        on_line(q, p, p2),
        on_line(q2, p, p2),
{
    let dx = q2.x - q.x;
    let dy = q2.y - q.y;
    let ux = p.x - q.x;
    let uy = p.y - q.y;
    let vx = p2.x - q.x;
    let vy = p2.y - q.y;
    assert(cross_spec(p.x - q.x, p.y - q.y, p.x - q2.x, p.y - q2.y) == -cross_spec(ux, uy, dx, dy)) by (nonlinear_arith)
        requires dx == q2.x - q.x, dy == q2.y - q.y, ux == p.x - q.x, uy == p.y - q.y;
    assert(cross_spec(p2.x - q.x, p2.y - q.y, p2.x - q2.x, p2.y - q2.y) == -cross_spec(vx, vy, dx, dy)) by (nonlinear_arith)
        requires dx == q2.x - q.x, dy == q2.y - q.y, vx == p2.x - q.x, vy == p2.y - q.y;
    assert(cross_spec(dx, dy, ux, uy) == -cross_spec(ux, uy, dx, dy)) by (nonlinear_arith);
    assert(cross_spec(dx, dy, vx, vy) == -cross_spec(vx, vy, dx, dy)) by (nonlinear_arith);
    assert(dx != 0 || dy != 0);
    lemma_parallel(dx, dy, ux, uy, vx, vy);
    assert(cross_spec(q.x - p.x, q.y - p.y, q.x - p2.x, q.y - p2.y) == cross_spec(ux, uy, vx, vy)) by (nonlinear_arith)
        requires ux == p.x - q.x, uy == p.y - q.y, vx == p2.x - q.x, vy == p2.y - q.y;
    let wx = p.x - q2.x;
    let wy = p.y - q2.y;
    let zx = p2.x - q2.x;
    let zy = p2.y - q2.y;
    assert(wx == ux - dx && wy == uy - dy && zx == vx - dx && zy == vy - dy);
    lemma_cross_shift(ux, uy, vx, vy, dx, dy);
    assert(q2.x - p.x == dx - ux && q2.y - p.y == dy - uy && q2.x - p2.x == dx - vx && q2.y - p2.y == dy - vy);
}

/// Exchanging the segments exchanges the roles in the result: `EndA` and
/// `EndB`, `OverlayA` and `OverlayB`, and the two points of `Penetrate`,
/// with the points kept. This holds for all pairs of segments of non-zero
/// length except proper crossings, whose point is rounded relative to the
/// first segment.
pub proof fn lemma_cross_symmetry(a: FixEdge, b: FixEdge)
    requires
        edges_fit(a, b),
        a.e0 != a.e1,
        b.e0 != b.e1,
        !proper_crossing(a, b),
    ensures
        edge_cross_spec(b, a) == swap_roles(edge_cross_spec(a, b)),
{
    let a0_area = area_two(b.e0, a.e0, b.e1);
    let a1_area = area_two(b.e0, a.e1, b.e1);
    let b0_area = area_two(a.e0, b.e0, a.e1);
    let b1_area = area_two(a.e0, b.e1, a.e1);
    assert(on_line(a.e0, b.e0, b.e1) == (a0_area == 0));
    assert(on_line(a.e1, b.e0, b.e1) == (a1_area == 0));
    assert(on_line(b.e0, a.e0, a.e1) == (b0_area == 0));
    assert(on_line(b.e1, a.e0, a.e1) == (b1_area == 0));
    if a0_area == 0 && a1_area == 0 {
        lemma_collinear_both_ways(a.e0, a.e1, b.e0, b.e1);
    } else if b0_area == 0 && b1_area == 0 {
        lemma_collinear_both_ways(b.e0, b.e1, a.e0, a.e1);
    } else if !shares_end(a, b) {
        lemma_on_line_swap(a.e0, b.e0, b.e1);
        lemma_on_line_swap(a.e1, b.e0, b.e1);
        lemma_on_line_swap(a.e1, b.e1, b.e0);
        if a0_area == 0 && b0_area == 0 {
            lemma_shared_line(a.e0, a.e1, b.e0, b.e1);
        }
        if a0_area == 0 && b1_area == 0 {
            lemma_shared_line(a.e0, a.e1, b.e1, b.e0);
        }
        if a1_area == 0 && b0_area == 0 {
            lemma_on_line_swap(b.e0, a.e0, a.e1);
            lemma_shared_line(a.e1, a.e0, b.e0, b.e1);
            lemma_on_line_swap(a.e0, b.e0, b.e1);
        }
        if a1_area == 0 && b1_area == 0 {
            lemma_on_line_swap(b.e1, a.e0, a.e1);
            lemma_shared_line(a.e1, a.e0, b.e1, b.e0);
            lemma_on_line_swap(a.e0, b.e1, b.e0);
        }
    }
}

} // verus!
