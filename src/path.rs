use vstd::prelude::*;
use crate::point::{cross_spec, dot_spec, IntPoint, LatticePoint};
use crate::repair::{all_in_range, coords_of};
use crate::ring::{chain_area, prv, ring_area, wedge, wrap64, wrap_to_i64};
use crate::simple::{IntContour, IntShape, IntShapes};
use crate::triangle::sign;

verus! {

/// An open or closed sequence of lattice points.
pub type IntPath = Vec<IntPoint>;

/// A list of paths.
pub type IntPaths = Vec<IntPath>;

/// Doubled signed area of a contour as a 64-bit value: the exact shoelace
/// sum, wrapped to 64 bits.
pub open spec fn area_two_of(s: Seq<IntPoint>) -> int {
    wrap64(ring_area(coords_of(s)))
}

/// The edge vector that ends at position `j` of the ring `s`.
pub open spec fn edge_into(s: Seq<(int, int)>, j: int) -> (int, int) {
    let p = prv(j, s.len() as int);
    (s[j].0 - s[p].0, s[j].1 - s[p].1)
}

/// The turn at the start of edge `j`: the cross product of that edge with the one before it.
pub open spec fn turn_at(s: Seq<(int, int)>, j: int) -> int {
    let e1 = edge_into(s, j);
    let e0 = edge_into(s, prv(j, s.len() as int));
    cross_spec(e1.0, e1.1, e0.0, e0.1)
}

/// The path goes straight back over a unit step at position `j`.
pub open spec fn unit_reversal_at(s: Seq<(int, int)>, j: int) -> bool {
    let e1 = edge_into(s, j);
    let e0 = edge_into(s, prv(j, s.len() as int));
    turn_at(s, j) == 0 && dot_spec(e1.0, e1.1, e0.0, e0.1) == -1
}

/// A ring is convex when every turn that is not straight goes the same way
/// and the path never steps straight back by a unit; rings of at most two
/// points count as convex.
pub open spec fn is_convex_ring(s: Seq<(int, int)>) -> bool {
    s.len() <= 2 || {
        &&& forall|j: int| 0 <= j < s.len() ==> !#[trigger] unit_reversal_at(s, j)
        &&& forall|j: int, k: int|
            0 <= j < s.len() && 0 <= k < s.len() && #[trigger] turn_at(s, j) != 0 && #[trigger] turn_at(s, k)
                != 0 ==> sign(turn_at(s, j)) == sign(turn_at(s, k))
    }
}

/// The ray from `p` toward growing `x` crosses the edge from `b` to `a`:
/// the edge spans `p`'s height (one end above, one not) and meets that
/// height to the right of `p`, the meeting point rounded toward `a`.
pub open spec fn crosses_ray(p: (int, int), a: (int, int), b: (int, int)) -> bool {
    (a.1 > p.1) != (b.1 > p.1) && p.0 < crate::point::div_trunc((p.1 - a.1) * (b.0 - a.0), b.1 - a.1) + a.0
}

/// How many of the first `k` edges of the ring `s` the ray from `p` crosses.
pub open spec fn ray_crossings(s: Seq<(int, int)>, p: (int, int), k: int) -> nat
    decreases k,
{
    if k <= 0 {
        0
    } else {
        ray_crossings(s, p, k - 1) + if crosses_ray(p, s[k - 1], s[prv(k - 1, s.len() as int)]) {
            1nat
        } else {
            0nat
        }
    }
}

/// `p` lies inside the ring `s` by the even-odd rule.
pub open spec fn encloses(s: Seq<(int, int)>, p: (int, int)) -> bool {
    ray_crossings(s, p, s.len() as int) % 2 == 1
}

/// Whether `point` lies inside the ring by the even-odd rule.
pub fn ring_contains<P: LatticePoint>(s: &[P], point: P) -> (r: bool)
    requires
        all_in_range(s@),
        point.in_range(),
    ensures
        r == encloses(coords_of(s@), point.coords()),
{
    let n = s.len();
    if n == 0 {
        return false;
    }
    let ghost c = coords_of(s@);
    let (px, py) = P::wide(point);
    let mut is_contain = false;
    let mut j: usize = 0;
    while j < n
        invariant
            n == s@.len(),
            c == coords_of(s@),
            all_in_range(s@),
            j <= n,
            px == point.coords().0,
            py == point.coords().1,
            -0x8000_0000 <= px <= 0x8000_0000,
            -0x8000_0000 <= py <= 0x8000_0000,
            is_contain == (ray_crossings(c, point.coords(), j as int) % 2 == 1),
        decreases n - j,
    {
        let k = if j == 0 { n - 1 } else { j - 1 };
        proof {
            assert(s@[j as int].in_range() && s@[k as int].in_range());
        }
        let (ax, ay) = P::wide(s[j]);
        let (bx, by) = P::wide(s[k]);
        proof {
            assert(c[j as int] == (ax as int, ay as int));
            assert(c[k as int] == (bx as int, by as int));
        }
        let is_in_range = (ay > py) != (by > py);
        if is_in_range {
            let dx = bx - ax;
            let dy = by - ay;
            let t = py - ay;
            proof {
                assert(-0x4_0000_0000_0000_0000 <= t * dx <= 0x4_0000_0000_0000_0000) by (nonlinear_arith)
                    requires -0x1_0000_0000 <= t <= 0x1_0000_0000, -0x1_0000_0000 <= dx <= 0x1_0000_0000;
            }
            let sx = crate::point::div_toward_zero(t * dx, dy) + ax;
            if px < sx {
                is_contain = !is_contain;
            }
        }
        j += 1;
    }
    is_contain
}

/// Measures and orientation of a single contour.
pub trait ContourExtension {
    /// Doubled signed area: positive for a clockwise contour.
    fn unsafe_area(&self) -> i64;

    /// Whether the contour turns one way only.
    fn is_convex(&self) -> bool;

    /// Whether the doubled area is not negative.
    fn is_clockwise_ordered(&self) -> bool;

    /// The contour with its points in reverse order.
    fn to_reversed(&self) -> IntContour;
}

/// The exact doubled signed area of a non-empty contour.
pub fn exact_area_two<P: LatticePoint>(s: &[P]) -> (r: i128)
    requires
        s@.len() > 0,
        all_in_range(s@),
    ensures
        r == ring_area(coords_of(s@)),
        -0x7fff_ffff_ffff_ffff_8000_0000_0000_0000 <= r <= 0x7fff_ffff_ffff_ffff_8000_0000_0000_0000,
{
    let n = s.len();
    let ghost c = coords_of(s@);
    let mut area: i128 = P::shoelace_term(s[0], s[n - 1]);
    let mut j: usize = 1;
    proof {
        assert(c.subrange(0, 1).len() == 1);
    }
    while j < n
        invariant
            n == s@.len(),
            c == coords_of(s@),
            all_in_range(s@),
            1 <= j <= n,
            area == wedge(c[0], c[n - 1]) + chain_area(c.subrange(0, j as int)),
            -(j as int) * 0x8000_0000_0000_0000 <= area <= (j as int) * 0x8000_0000_0000_0000,
        decreases n - j,
    {
        let t = P::shoelace_term(s[j], s[j - 1]);
        proof {
            assert(c.subrange(0, j + 1).drop_last() =~= c.subrange(0, j as int));
        }
        area = area + t;
        j += 1;
    }
    proof {
        assert(c.subrange(0, n as int) =~= c);
        assert(n <= 0xffff_ffff_ffff_ffff);
    }
    area
}

/// Whether the ring turns one way only (see `is_convex_ring`).
pub fn convex_ring<P: LatticePoint>(s: &[P]) -> (r: bool)
    requires
        all_in_range(s@),
    ensures
        r == is_convex_ring(coords_of(s@)),
{
    let n = s.len();
    if n <= 2 {
        return true;
    }
    let ghost c = coords_of(s@);
    let mut sign_seen: i128 = 0;
    let mut j: usize = 0;
    while j < n
        invariant
            n == s@.len(),
            n >= 3,
            c == coords_of(s@),
            all_in_range(s@),
            j <= n,
            forall|k: int| 0 <= k < j ==> !#[trigger] unit_reversal_at(c, k),
            sign_seen == 0 ==> forall|k: int| 0 <= k < j ==> #[trigger] turn_at(c, k) == 0,
            sign_seen != 0 ==> (sign_seen == 1 || sign_seen == -1) && exists|k: int|
                0 <= k < j && #[trigger] turn_at(c, k) != 0 && sign(turn_at(c, k)) == sign_seen,
            forall|k: int| 0 <= k < j && #[trigger] turn_at(c, k) != 0 ==> sign(turn_at(c, k)) == sign_seen,
        decreases n - j,
    {
        let p = if j == 0 { n - 1 } else { j - 1 };
        let pp = if p == 0 { n - 1 } else { p - 1 };
        proof {
            assert(s@[pp as int].in_range() && s@[p as int].in_range() && s@[j as int].in_range());
        }
        let (turn, dot) = P::turn(s[pp], s[p], s[j]);
        proof {
            assert(c[j as int] == s@[j as int].coords());
            assert(c[p as int] == s@[p as int].coords());
            assert(c[pp as int] == s@[pp as int].coords());
            assert(turn == turn_at(c, j as int));
        }
        let sg: i128 = if turn < 0 { -1 } else if turn > 0 { 1 } else { 0 };
        if sg == 0 {
            if dot == -1 {
                assert(unit_reversal_at(c, j as int));
                return false;
            }
        } else if sign_seen == 0 {
            sign_seen = sg;
            assert(turn_at(c, j as int) != 0 && sign(turn_at(c, j as int)) == sign_seen);
        } else if sign_seen != sg {
            proof {
                let k = choose|k: int| 0 <= k < j && #[trigger] turn_at(c, k) != 0 && sign(turn_at(c, k)) == sign_seen;
                assert(turn_at(c, j as int) != 0 && turn_at(c, k) != 0);
            }
            return false;
        }
        j += 1;
    }
    proof {
        assert forall|a: int, b: int|
            0 <= a < n && 0 <= b < n && #[trigger] turn_at(c, a) != 0 && #[trigger] turn_at(c, b) != 0 implies sign(
            turn_at(c, a)) == sign(turn_at(c, b)) by {}
    }
    true
}

impl ContourExtension for [IntPoint] {
    fn unsafe_area(&self) -> (r: i64)
        ensures
            r == area_two_of(self@),
    {
        if self.len() == 0 {
            proof {
                assert(wrap64(0) == 0);
            }
            return 0;
        }
        wrap_to_i64(exact_area_two(self))
    }

    fn is_convex(&self) -> (r: bool)
        ensures
            r == is_convex_ring(coords_of(self@)),
    {
        convex_ring(self)
    }

    fn is_clockwise_ordered(&self) -> (r: bool)
        ensures
            r == (area_two_of(self@) >= 0),
    {
        self.unsafe_area() >= 0
    }

    fn to_reversed(&self) -> (r: IntContour)
        ensures
            r@ == self@.reverse(),
    {
        reversed_points(self)
    }
}

/// The points of `s` in reverse order.
pub fn reversed_points<P: Copy>(s: &[P]) -> (r: Vec<P>)
    ensures
        r@ == s@.reverse(),
{
    let n = s.len();
    let mut out: Vec<P> = Vec::with_capacity(n);
    let mut j: usize = n;
    while j > 0
        invariant
            j <= n,
            n == s@.len(),
            out@.len() == n - j,
            forall|k: int| 0 <= k < n - j ==> out@[k] == s@[n - 1 - k],
        decreases j,
    {
        j -= 1;
        out.push(s[j]);
    }
    proof {
        assert(out@ =~= s@.reverse());
    }
    out
}

/// Reverses the order of the points of every contour.
pub trait IntContourReverse {
    fn reverse_contours(&mut self);
}

impl IntContourReverse for IntShape {
    fn reverse_contours(&mut self)
        ensures
            final(self)@.len() == old(self)@.len(),
            forall|j: int| 0 <= j < final(self)@.len() ==> (#[trigger] final(self)@[j])@ == old(self)@[j]@.reverse(),
    {
        let n = self.len();
        let mut out: Vec<IntContour> = Vec::with_capacity(n);
        let mut j: usize = 0;
        while j < n
            invariant
                n == self@.len(),
                j <= n,
                self@ == old(self)@,
                out@.len() == j,
                forall|k: int| 0 <= k < j ==> (#[trigger] out@[k])@ == old(self)@[k]@.reverse(),
            decreases n - j,
        {
            out.push(reversed_points(self[j].as_slice()));
            j += 1;
        }
        *self = out;
    }
}

impl IntContourReverse for IntShapes {
    fn reverse_contours(&mut self)
        ensures
            final(self)@.len() == old(self)@.len(),
            forall|j: int|
                0 <= j < final(self)@.len() ==> (#[trigger] final(self)@[j])@.len() == old(self)@[j]@.len(),
            forall|j: int, k: int|
                0 <= j < final(self)@.len() && 0 <= k < final(self)@[j]@.len() ==> (#[trigger] final(self)@[j]@[k])@
                    == old(self)@[j]@[k]@.reverse(),
    {
        let n = self.len();
        let mut out: Vec<IntShape> = Vec::with_capacity(n);
        let mut j: usize = 0;
        while j < n
            invariant
                n == self@.len(),
                j <= n,
                self@ == old(self)@,
                out@.len() == j,
                forall|a: int| 0 <= a < j ==> (#[trigger] out@[a])@.len() == old(self)@[a]@.len(),
                forall|a: int, k: int|
                    0 <= a < j && 0 <= k < out@[a]@.len() ==> (#[trigger] out@[a]@[k])@ == old(self)@[a]@[k]@.reverse(),
            decreases n - j,
        {
            let mut shape = crate::contour::copy_shape(self[j].as_slice());
            let ghost copied = shape@;
            proof {
                assert(crate::contour::shape_view(copied).len() == copied.len());
                assert(crate::contour::shape_view(self@[j as int]@).len() == self@[j as int]@.len());
                assert(copied.len() == old(self)@[j as int]@.len());
                assert forall|k: int| 0 <= k < copied.len() implies (#[trigger] copied[k])@ == old(self)@[j as int]@[k]@ by {
                    assert(crate::contour::shape_view(copied)[k] == copied[k]@);
                    assert(crate::contour::shape_view(self@[j as int]@)[k] == self@[j as int]@[k]@);
                }
                assert(copied.len() == crate::contour::shape_view(copied).len());
            }
            IntContourReverse::reverse_contours(&mut shape);
            out.push(shape);
            j += 1;
        }
        *self = out;
    }
}

/// The sum of the 64-bit doubled areas of the contours.
pub open spec fn contours_area_sum(s: Seq<Vec<IntPoint>>) -> int
    decreases s.len(),
{
    if s.len() == 0 {
        0
    } else {
        contours_area_sum(s.drop_last()) + area_two_of(s.last()@)
    }
}

/// The sum of the 64-bit doubled areas of the shapes.
pub open spec fn shapes_area_sum(s: Seq<Vec<Vec<IntPoint>>>) -> int
    decreases s.len(),
{
    if s.len() == 0 {
        0
    } else {
        shapes_area_sum(s.drop_last()) + wrap64(contours_area_sum(s.last()@))
    }
}

/// Doubled and plain signed areas, wrapped to 64 bits.
pub trait Area {
    /// Doubled signed area.
    fn area_two(&self) -> i64;

    /// Signed area, rounded toward zero.
    fn area(&self) -> i64;
}

impl Area for [IntPoint] {
    fn area_two(&self) -> (r: i64)
        ensures
            r == area_two_of(self@),
    {
        self.unsafe_area()
    }

    fn area(&self) -> (r: i64)
        ensures
            r == crate::point::div_trunc(area_two_of(self@), 2),
    {
        self.area_two() / 2
    }
}

/// The exact sum of the 64-bit doubled areas of the contours.
fn contours_area_exact(s: &[IntContour]) -> (r: i128)
    ensures
        r == contours_area_sum(s@),
        -0x7fff_ffff_ffff_ffff_8000_0000_0000_0000 <= r <= 0x7fff_ffff_ffff_ffff_8000_0000_0000_0000,
{
    let mut sum: i128 = 0;
    let mut j: usize = 0;
    while j < s.len()
        invariant
            j <= s@.len(),
            sum == contours_area_sum(s@.subrange(0, j as int)),
            -(j as int) * 0x8000_0000_0000_0000 <= sum <= (j as int) * 0x8000_0000_0000_0000,
        decreases s@.len() - j,
    {
        proof {
            assert(s@.subrange(0, j + 1).drop_last() =~= s@.subrange(0, j as int));
        }
        let a = s[j].as_slice().area_two();
        proof {
            crate::ring::lemma_wrap64_range(ring_area(coords_of(s@[j as int]@)));
        }
        sum = sum + a as i128;
        j += 1;
    }
    proof {
        assert(s@.subrange(0, s@.len() as int) =~= s@);
        assert(s@.len() <= 0xffff_ffff_ffff_ffff);
    }
    sum
}

impl Area for [IntContour] {
    fn area_two(&self) -> (r: i64)
        ensures
            r == wrap64(contours_area_sum(self@)),
    {
        wrap_to_i64(contours_area_exact(self))
    }

    fn area(&self) -> (r: i64)
        ensures
            r == crate::point::div_trunc(wrap64(contours_area_sum(self@)), 2),
    {
        self.area_two() / 2
    }
}

impl Area for [IntShape] {
    fn area_two(&self) -> (r: i64)
        ensures
            r == wrap64(shapes_area_sum(self@)),
    {
        let mut sum: i128 = 0;
        let mut j: usize = 0;
        while j < self.len()
            invariant
                j <= self@.len(),
                sum == shapes_area_sum(self@.subrange(0, j as int)),
                -(j as int) * 0x8000_0000_0000_0000 <= sum <= (j as int) * 0x8000_0000_0000_0000,
            decreases self@.len() - j,
        {
            proof {
                assert(self@.subrange(0, j + 1).drop_last() =~= self@.subrange(0, j as int));
            }
            let a = self[j].as_slice().area_two();
            proof {
                crate::ring::lemma_wrap64_range(contours_area_sum(self@[j as int]@));
            }
            sum = sum + a as i128;
            j += 1;
        }
        proof {
            assert(self@.subrange(0, self@.len() as int) =~= self@);
        }
        proof {
            assert(self@.len() <= 0xffff_ffff_ffff_ffff);
        }
        wrap_to_i64(sum)
    }

    fn area(&self) -> (r: i64)
        ensures
            r == crate::point::div_trunc(wrap64(shapes_area_sum(self@)), 2),
    {
        self.area_two() / 2
    }
}

/// `s` with every run of equal consecutive points cut to one point.
pub open spec fn dedup_runs(s: Seq<IntPoint>) -> Seq<IntPoint>
    decreases s.len(),
{
    if s.len() <= 1 {
        s
    } else {
        let r = dedup_runs(s.drop_last());
        if s.last() == s[s.len() - 2] {
            r
        } else {
            r.push(s.last())
        }
    }
}

/// `s` without runs of equal points, and without a last point equal to the first.
pub open spec fn dedup_closed(s: Seq<IntPoint>) -> Seq<IntPoint> {
    let r = dedup_runs(s);
    if r.len() > 0 && r[0] == r.last() {
        r.drop_last()
    } else {
        r
    }
}

proof fn lemma_dedup_runs_shape(s: Seq<IntPoint>)
    ensures
        dedup_runs(s).len() <= s.len(),
        s.len() > 0 ==> dedup_runs(s).len() > 0 && dedup_runs(s)[0] == s[0] && dedup_runs(s).last() == s.last(),
    decreases s.len(),
{
    if s.len() > 1 {
        lemma_dedup_runs_shape(s.drop_last());
    }
}

/// Removing repeated points from a contour.
pub trait DedupContour {
    /// Removes consecutive duplicate points, and a last point equal to the
    /// first; returns whether the contour became shorter.
    fn dedup_contour(&mut self) -> bool;
}

impl DedupContour for IntContour {
    fn dedup_contour(&mut self) -> (changed: bool)
        ensures
            final(self)@ == dedup_closed(old(self)@),
            changed == (final(self)@.len() < old(self)@.len()),
    {
        let n = self.len();
        let mut out: Vec<IntPoint> = Vec::with_capacity(n);
        let mut j: usize = 0;
        while j < n
            invariant
                n == self@.len(),
                j <= n,
                self@ == old(self)@,
                out@ == dedup_runs(self@.subrange(0, j as int)),
            decreases n - j,
        {
            proof {
                assert(self@.subrange(0, j + 1).drop_last() =~= self@.subrange(0, j as int));
                lemma_dedup_runs_shape(self@.subrange(0, j as int));
            }
            if j == 0 || self[j] != self[j - 1] {
                out.push(self[j]);
            }
            j += 1;
        }
        proof {
            assert(self@.subrange(0, n as int) =~= self@);
            lemma_dedup_runs_shape(self@);
        }
        let m = out.len();
        if m > 0 && out[0] == out[m - 1] {
            out.pop();
        }
        *self = out;
        self.len() < n
    }
}

} // verus!
