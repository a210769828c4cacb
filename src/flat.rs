use vstd::prelude::*;
use core::ops::Range;
use crate::contour::shape_view;
use crate::point::IntPoint;
use crate::simple::{IntContour, IntShape};
use crate::source::shapes::shapes_paths;

verus! {

/// The points of many contours in one vector, each contour a range of it.
pub struct FlatContoursBuffer {
    pub points: Vec<IntPoint>,
    pub ranges: Vec<Range<usize>>,
}

/// Appends the points of `contour` to `points`.
fn append_points(points: &mut Vec<IntPoint>, contour: &[IntPoint])
    ensures
        final(points)@ == old(points)@ + contour@,
{
    let mut j: usize = 0;
    while j < contour.len()
        invariant
            j <= contour@.len(),
            points@ == old(points)@ + contour@.subrange(0, j as int),
        decreases contour@.len() - j,
    {
        points.push(contour[j]);
        proof {
            assert(old(points)@ + contour@.subrange(0, j + 1) =~= (old(points)@ + contour@.subrange(0, j as int)).push(contour@[j as int]));
        }
        j += 1;
    }
    proof {
        assert(contour@.subrange(0, contour@.len() as int) =~= contour@);
    }
}

impl FlatContoursBuffer {
    /// Every range lies inside the points, start before end.
    pub open spec fn well_formed(&self) -> bool {
        forall|k: int|
            0 <= k < self.ranges@.len() ==> #[trigger] self.ranges@[k].start <= self.ranges@[k].end <= self.points@.len()
    }

    /// The contours that the buffer holds, in order.
    pub open spec fn contours(&self) -> Seq<Seq<IntPoint>> {
        Seq::new(
            self.ranges@.len(),
            |k: int| self.points@.subrange(self.ranges@[k].start as int, self.ranges@[k].end as int),
        )
    }

    pub fn with_capacity(capacity: usize) -> (r: Self)
        ensures
            r.points@.len() == 0,
            r.ranges@.len() == 0,
    {
        Self { points: Vec::with_capacity(capacity), ranges: Vec::new() }
    }

    /// The buffer holds no point.
    pub fn is_empty(&self) -> (r: bool)
        ensures
            r == (self.points@.len() == 0),
    {
        self.points.len() == 0
    }

    /// The buffer holds exactly one contour.
    pub fn is_single_contour(&self) -> (r: bool)
        ensures
            r == (self.ranges@.len() == 1),
    {
        self.ranges.len() == 1
    }

    /// The first contour; all the points when there is no range.
    pub fn as_first_contour(&self) -> (r: &[IntPoint])
        requires
            self.well_formed(),
        ensures
            self.ranges@.len() > 0 ==> r@ == self.contours()[0],
            self.ranges@.len() == 0 ==> r@ == self.points@,
    {
        if self.ranges.len() > 0 {
            let range = &self.ranges[0];
            vstd::slice::slice_subrange(self.points.as_slice(), range.start, range.end)
        } else {
            self.points.as_slice()
        }
    }

    /// Empties the buffer, making room for the given numbers of points and contours.
    pub fn clear_and_reserve(&mut self, points: usize, contours: usize)
        ensures
            final(self).points@.len() == 0,
            final(self).ranges@.len() == 0,
    {
        self.points.clear();
        self.points.reserve(points);
        self.ranges.clear();
        self.ranges.reserve(contours);
    }

    /// Appends a contour.
    pub fn add_contour(&mut self, contour: &[IntPoint])
        requires
            old(self).well_formed(),
        ensures
            final(self).well_formed(),
            final(self).contours() == old(self).contours().push(contour@),
            final(self).points@ == old(self).points@ + contour@,
    {
        let start = self.points.len();
        append_points(&mut self.points, contour);
        let end = self.points.len();
        self.ranges.push(start..end);
        proof {
            assert(self.contours() =~= old(self).contours().push(contour@)) by {
                assert forall|k: int| 0 <= k < old(self).ranges@.len() implies
                    self.contours()[k] == old(self).contours()[k] by {
                    assert(self.points@.subrange(self.ranges@[k].start as int, self.ranges@[k].end as int)
                        =~= old(self).points@.subrange(self.ranges@[k].start as int, self.ranges@[k].end as int));
                }
                assert(self.points@.subrange(start as int, end as int) =~= contour@);
            }
        }
    }

    /// Holds exactly the given contour.
    pub fn set_with_contour(&mut self, contour: &[IntPoint])
        ensures
            final(self).well_formed(),
            final(self).contours() == seq![contour@],
            final(self).points@ == contour@,
    {
        self.clear_and_reserve(contour.len(), 1);
        self.add_contour(contour);
        proof {
            assert(self.contours() =~= seq![contour@]);
            assert(Seq::<IntPoint>::empty() + contour@ =~= contour@);
        }
    }

    /// Holds exactly the contours of the shape.
    pub fn set_with_shape(&mut self, shape: &[IntContour])
        ensures
            final(self).well_formed(),
            final(self).contours() == shape_view(shape@),
    {
        self.clear_and_reserve(0, shape.len());
        proof {
            assert(self.contours() =~= Seq::<Seq<IntPoint>>::empty());
        }
        let mut j: usize = 0;
        while j < shape.len()
            invariant
                j <= shape@.len(),
                self.well_formed(),
                self.contours() == shape_view(shape@).subrange(0, j as int),
            decreases shape@.len() - j,
        {
            self.add_contour(shape[j].as_slice());
            proof {
                assert(shape_view(shape@).subrange(0, j + 1) =~= shape_view(shape@).subrange(0, j as int).push(shape@[j as int]@));
            }
            j += 1;
        }
        proof {
            assert(shape_view(shape@).subrange(0, shape@.len() as int) =~= shape_view(shape@));
        }
    }

    /// Holds exactly the contours of all the shapes, shape after shape.
    pub fn set_with_shapes(&mut self, shapes: &[IntShape])
        ensures
            final(self).well_formed(),
            final(self).contours() == shapes_paths(shapes@),
    {
        self.clear_and_reserve(0, 0);
        proof {
            assert(shapes@.subrange(0, shapes@.len() as int) =~= shapes@);
            assert(self.contours() =~= Seq::<Seq<IntPoint>>::empty());
        }
        let mut j: usize = 0;
        while j < shapes.len()
            invariant
                j <= shapes@.len(),
                self.well_formed(),
                self.contours() + shapes_paths(shapes@.subrange(j as int, shapes@.len() as int)) == shapes_paths(shapes@),
            decreases shapes@.len() - j,
        {
            let ghost before = self.contours();
            let shape = shapes[j].as_slice();
            let mut k: usize = 0;
            while k < shape.len()
                invariant
                    k <= shape@.len(),
                    self.well_formed(),
                    self.contours() == before + shape_view(shape@).subrange(0, k as int),
                decreases shape@.len() - k,
            {
                self.add_contour(shape[k].as_slice());
                proof {
                    assert(before + shape_view(shape@).subrange(0, k + 1) =~= (before + shape_view(shape@).subrange(0, k as int)).push(shape@[k as int]@));
                }
                k += 1;
            }
            proof {
                let t = shapes@.subrange(j as int, shapes@.len() as int);
                assert(t.subrange(1, t.len() as int) =~= shapes@.subrange(j + 1, shapes@.len() as int));
                assert(t[0] == shapes@[j as int]);
                assert(shape_view(shape@).subrange(0, shape@.len() as int) =~= shape_view(shape@));
                assert(self.contours() + shapes_paths(shapes@.subrange(j + 1, shapes@.len() as int))
                    =~= before + shapes_paths(t));
            }
            j += 1;
        }
        proof {
            assert(shapes_paths(shapes@.subrange(shapes@.len() as int, shapes@.len() as int)) =~= Seq::<Seq<IntPoint>>::empty());
            assert(self.contours() + Seq::<Seq<IntPoint>>::empty() =~= self.contours());
        }
    }

    /// The contours as separate vectors.
    pub fn to_contours(&self) -> (r: Vec<IntContour>)
        requires
            self.well_formed(),
        ensures
            shape_view(r@) == self.contours(),
    {
        let mut contours: Vec<IntContour> = Vec::with_capacity(self.ranges.len());
        let mut k: usize = 0;
        while k < self.ranges.len()
            invariant
                k <= self.ranges@.len(),
                self.well_formed(),
                shape_view(contours@) == self.contours().subrange(0, k as int),
            decreases self.ranges@.len() - k,
        {
            let range = &self.ranges[k];
            let part = vstd::slice::slice_subrange(self.points.as_slice(), range.start, range.end);
            let c = crate::contour::copy_points(part);
            proof {
                assert(shape_view(contours@.push(c)) =~= shape_view(contours@).push(c@));
                assert(self.contours().subrange(0, k + 1) =~= self.contours().subrange(0, k as int).push(self.contours()[k as int]));
            }
            contours.push(c);
            k += 1;
        }
        proof {
            assert(self.contours().subrange(0, self.ranges@.len() as int) =~= self.contours());
        }
        contours
    }
}

} // verus!
