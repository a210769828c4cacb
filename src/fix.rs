use vstd::prelude::*;
use crate::contour::{contour_outcome, nonempty, repair_contour_in_place, repaired_contour};
use crate::count::{contours_points_count, shapes_total_len, total_len};
use crate::path::{convex_ring, encloses, exact_area_two, is_convex_ring, reversed_points, ring_contains};
use crate::point::LatticePoint;
use crate::point::{Defect, FixVec};
use crate::repair::{all_in_range, coords_of};
use crate::ring::ring_area;

verus! {

/// A closed ring of fixed-point lattice points.
pub type FixPath = Vec<FixVec>;

/// A list of fixed-point paths.
pub type FixPaths = Vec<FixPath>;

/// Doubled signed area of a fixed-point path as a 64-bit value: the exact
/// shoelace sum, wrapped to 64 bits.
pub open spec fn fix_area_two(s: Seq<FixVec>) -> int {
    crate::ring::wrap64(ring_area(coords_of(s)))
}

/// Measures, orientation and repair of a fixed-point path.
pub trait FixPathExtension {
    /// Every point lies in the range where the arithmetic is exact.
    spec fn points_fit(&self) -> bool;

    /// Doubled signed area: positive for a clockwise path.
    fn unsafe_area(&self) -> i64
        requires
            self.points_fit(),
    ;

    /// Signed area in fixed-point units (ten fractional bits): the doubled
    /// area shifted right by eleven bits.
    fn fix_area(&self) -> i64
        requires
            self.points_fit(),
    ;

    /// Whether the path turns one way only.
    fn is_convex(&self) -> bool
        requires
            self.points_fit(),
    ;

    /// Whether the doubled area is not negative.
    fn is_clockwise_ordered(&self) -> bool
        requires
            self.points_fit(),
    ;

    /// Whether the point lies inside the path by the even-odd rule.
    fn contains(&self, point: FixVec) -> bool
        requires
            self.points_fit(),
            point.fits(),
    ;

    /// Takes out, in place, every point that does not change the direction
    /// of the path; a path that degenerates is left empty.
    fn remove_degenerates(&mut self)
        requires
            old(self).points_fit(),
    ;

    /// The path without its collinear points; empty when it degenerates.
    fn removed_degenerates(&self) -> FixPath
        requires
            self.points_fit(),
    ;
}

impl FixPathExtension for FixPath {
    open spec fn points_fit(&self) -> bool {
        all_in_range(self@)
    }

    fn unsafe_area(&self) -> (r: i64)
        ensures
            r == fix_area_two(self@),
    {
        if self.len() == 0 {
            proof {
                assert(crate::ring::wrap64(0) == 0);
            }
            return 0;
        }
        crate::ring::wrap_to_i64(exact_area_two(self.as_slice()))
    }

    fn fix_area(&self) -> (r: i64)
        ensures
            r == (fix_area_two(self@) as i64) >> 11i64,
    {
        self.unsafe_area() >> 11i64
    }

    fn is_convex(&self) -> (r: bool)
        ensures
            r == is_convex_ring(coords_of(self@)),
    {
        convex_ring(self.as_slice())
    }

    fn is_clockwise_ordered(&self) -> (r: bool)
        ensures
            r == (fix_area_two(self@) >= 0),
    {
        self.unsafe_area() >= 0
    }

    fn contains(&self, point: FixVec) -> (r: bool)
        ensures
            r == encloses(coords_of(self@), point.coords()),
    {
        ring_contains(self.as_slice(), point)
    }

    fn remove_degenerates(&mut self)
        ensures
            contour_outcome(Defect::Collinear, old(self)@, nonempty(final(self)@)),
    {
        repair_contour_in_place(self, Defect::Collinear);
    }

    fn removed_degenerates(&self) -> (r: FixPath)
        ensures
            contour_outcome(Defect::Collinear, self@, nonempty(r@)),
    {
        match repaired_contour(self.as_slice(), Defect::Collinear) {
            Some(path) => path,
            None => Vec::new(),
        }
    }
}

/// Counting the points of fixed-point paths.
pub trait FixPathsExtension {
    /// The total fits in a `usize`.
    spec fn count_fits(&self) -> bool;

    fn points_count(&self) -> usize
        requires
            self.count_fits(),
    ;
}

impl FixPathsExtension for [FixPath] {
    open spec fn count_fits(&self) -> bool {
        total_len(self@) <= usize::MAX
    }

    fn points_count(&self) -> (r: usize)
        ensures
            r == total_len(self@),
    {
        contours_points_count(self)
    }
}

/// A path turned clockwise: kept when its doubled area is not negative, reversed otherwise.
pub open spec fn clockwise_of(p: Seq<FixVec>) -> Seq<FixVec> {
    if fix_area_two(p) >= 0 {
        p
    } else {
        p.reverse()
    }
}

/// A path turned counter-clockwise: reversed when its doubled area is not negative.
pub open spec fn counter_clockwise_of(p: Seq<FixVec>) -> Seq<FixVec> {
    if fix_area_two(p) >= 0 {
        p.reverse()
    } else {
        p
    }
}

/// A path that can be measured: non-empty, with every point in range.
pub open spec fn measurable(p: Seq<FixVec>) -> bool {
    p.len() > 0 && all_in_range(p)
}

fn clockwise_path(path: FixPath) -> (r: FixPath)
    requires
        measurable(path@),
    ensures
        r@ == clockwise_of(path@),
{
    if path.is_clockwise_ordered() {
        path
    } else {
        reversed_points(path.as_slice())
    }
}

fn counter_clockwise_path(path: FixPath) -> (r: FixPath)
    requires
        measurable(path@),
    ensures
        r@ == counter_clockwise_of(path@),
{
    if path.is_clockwise_ordered() {
        reversed_points(path.as_slice())
    } else {
        path
    }
}

/// A shape of fixed-point paths: the outer contour first, then the holes.
#[derive(Debug, Clone, PartialEq, Eq)]
pub struct FixShape {
    pub paths: Vec<FixPath>,
}

impl FixShape {
    /// The number of points in all the paths.
    pub fn points_count(&self) -> (r: usize)
        requires
            total_len(self.paths@) <= usize::MAX,
        ensures
            r == total_len(self.paths@),
    {
        contours_points_count(self.paths.as_slice())
    }

    /// The shape is one convex contour without holes.
    pub fn is_convex_polygon(&self) -> (r: bool)
        requires
            self.paths@.len() > 0 ==> all_in_range(self.paths@[0]@),
        ensures
            r == (self.paths@.len() == 1 && is_convex_ring(coords_of(self.paths@[0]@))),
    {
        self.paths.len() == 1 && self.contour().is_convex()
    }

    /// The outer contour.
    pub fn contour(&self) -> (r: &FixPath)
        requires
            self.paths@.len() > 0,
        ensures
            r@ == self.paths@[0]@,
    {
        &self.paths[0]
    }

    /// The holes.
    pub fn holes(&self) -> (r: &[FixPath])
        requires
            self.paths@.len() > 0,
        ensures
            r@ == self.paths@.subrange(1, self.paths@.len() as int),
    {
        vstd::slice::slice_subrange(self.paths.as_slice(), 1, self.paths.len())
    }

    /// A shape of the given paths, taken as they are.
    pub fn new(paths: Vec<FixPath>) -> (r: FixShape)
        ensures
            r.paths == paths,
    {
        FixShape { paths }
    }

    /// A shape with one contour, turned clockwise.
    pub fn new_with_contour(contour: FixPath) -> (r: FixShape)
        requires
            measurable(contour@),
        ensures
            r.paths@.len() == 1,
            r.paths@[0]@ == clockwise_of(contour@),
    {
        let mut paths: Vec<FixPath> = Vec::new();
        paths.push(clockwise_path(contour));
        FixShape { paths }
    }

    /// A shape with a contour turned clockwise and holes turned counter-clockwise.
    pub fn new_with_contour_and_holes(contour: FixPath, holes: Vec<FixPath>) -> (r: FixShape)
        requires
            measurable(contour@),
            forall|j: int| 0 <= j < holes@.len() ==> measurable(#[trigger] holes@[j]@),
        ensures
            r.paths@.len() == holes@.len() + 1,
            r.paths@[0]@ == clockwise_of(contour@),
            forall|j: int| 0 <= j < holes@.len() ==> (#[trigger] r.paths@[j + 1])@ == counter_clockwise_of(holes@[j]@),
    {
        let mut paths: Vec<FixPath> = Vec::new();
        paths.push(clockwise_path(contour));
        let n = holes.len();
        let mut j: usize = 0;
        while j < n
            invariant
                n == holes@.len(),
                j <= n,
                paths@.len() == j + 1,
                paths@[0]@ == clockwise_of(contour@),
                forall|k: int| 0 <= k < n ==> measurable(#[trigger] holes@[k]@),
                forall|k: int| 0 <= k < j ==> (#[trigger] paths@[k + 1])@ == counter_clockwise_of(holes@[k]@),
            decreases n - j,
        {
            let hole = crate::contour::copy_points(holes[j].as_slice());
            paths.push(counter_clockwise_path(hole));
            j += 1;
        }
        FixShape { paths }
    }

    /// Adds a hole, turned counter-clockwise.
    pub fn add_hole(&mut self, path: FixPath)
        requires
            measurable(path@),
        ensures
            final(self).paths@ == old(self).paths@.push(final(self).paths@.last()),
            final(self).paths@.last()@ == counter_clockwise_of(path@),
    {
        self.paths.push(counter_clockwise_path(path));
    }
}

/// A list of fixed-point shapes.
pub type FixShapes = Vec<FixShape>;

/// The number of points of every shape in turn.
pub open spec fn fix_shapes_paths(s: Seq<FixShape>) -> Seq<Vec<Vec<FixVec>>> {
    Seq::new(s.len(), |j: int| s[j].paths)
}

/// Counting the points of fixed-point shapes.
pub trait FixShapesExtension {
    /// The total fits in a `usize`.
    spec fn count_fits(&self) -> bool;

    fn points_count(&self) -> usize
        requires
            self.count_fits(),
    ;
}

impl FixShapesExtension for [FixShape] {
    open spec fn count_fits(&self) -> bool {
        shapes_total_len(fix_shapes_paths(self@)) <= usize::MAX
    }

    fn points_count(&self) -> (r: usize)
        ensures
            r == shapes_total_len(fix_shapes_paths(self@)),
    {
        let ghost s = fix_shapes_paths(self@);
        let mut total: usize = 0;
        let mut j: usize = 0;
        while j < self.len()
            invariant
                j <= self@.len(),
                s == fix_shapes_paths(self@),
                total == shapes_total_len(s.subrange(0, j as int)),
                shapes_total_len(s) <= usize::MAX,
            decreases self@.len() - j,
        {
            proof {
                assert(s.subrange(0, j + 1).drop_last() =~= s.subrange(0, j as int));
                crate::count::lemma_shapes_total_len_prefix(s, j + 1);
                assert(s[j as int] == self@[j as int].paths);
            }
            total = total + contours_points_count(self[j].paths.as_slice());
            j += 1;
        }
        proof {
            assert(s.subrange(0, s.len() as int) =~= s);
        }
        total
    }
}

} // verus!
