use vstd::prelude::*;
use crate::simple::{IntShape};
use crate::path::IntPath;

verus! {

/// The number of points in all the contours.
pub open spec fn total_len<P>(s: Seq<Vec<P>>) -> nat
    decreases s.len(),
{
    if s.len() == 0 {
        0
    } else {
        total_len(s.drop_last()) + s.last()@.len()
    }
}

/// The number of points in all the shapes.
pub open spec fn shapes_total_len<P>(s: Seq<Vec<Vec<P>>>) -> nat
    decreases s.len(),
{
    if s.len() == 0 {
        0
    } else {
        shapes_total_len(s.drop_last()) + total_len(s.last()@)
    }
}

/// The largest number of points in one shape; zero for no shapes.
pub open spec fn biggest_shape_len<P>(s: Seq<Vec<Vec<P>>>) -> nat
    decreases s.len(),
{
    if s.len() == 0 {
        0
    } else {
        let rest = biggest_shape_len(s.drop_last());
        let last = total_len(s.last()@);
        if last > rest {
            last
        } else {
            rest
        }
    }
}

proof fn lemma_total_len_prefix<P>(s: Seq<Vec<P>>, k: int)
    requires
        0 <= k <= s.len(),
    ensures
        total_len(s.subrange(0, k)) <= total_len(s),
    decreases s.len() - k,
{
    if k < s.len() {
        lemma_total_len_prefix(s, k + 1);
        assert(s.subrange(0, k + 1).drop_last() =~= s.subrange(0, k));
    } else {
        assert(s.subrange(0, k) =~= s);
    }
}

pub proof fn lemma_shapes_total_len_prefix<P>(s: Seq<Vec<Vec<P>>>, k: int)
    requires
        0 <= k <= s.len(),
    ensures
        shapes_total_len(s.subrange(0, k)) <= shapes_total_len(s),
    decreases s.len() - k,
{
    if k < s.len() {
        lemma_shapes_total_len_prefix(s, k + 1);
        assert(s.subrange(0, k + 1).drop_last() =~= s.subrange(0, k));
    } else {
        assert(s.subrange(0, k) =~= s);
    }
}

/// The number of points in all the contours.
pub fn contours_points_count<P>(s: &[Vec<P>]) -> (r: usize)
    requires
        total_len(s@) <= usize::MAX,
    ensures
        r == total_len(s@),
{
    let mut total: usize = 0;
    let mut j: usize = 0;
    while j < s.len()
        invariant
            j <= s@.len(),
            total == total_len(s@.subrange(0, j as int)),
            total_len(s@) <= usize::MAX,
        decreases s@.len() - j,
    {
        proof {
            assert(s@.subrange(0, j + 1).drop_last() =~= s@.subrange(0, j as int));
            lemma_total_len_prefix(s@, j + 1);
        }
        total = total + s[j].len();
        j += 1;
    }
    proof {
        assert(s@.subrange(0, s@.len() as int) =~= s@);
    }
    total
}

/// The number of points in all the shapes.
pub fn shapes_points_count<P>(s: &[Vec<Vec<P>>]) -> (r: usize)
    requires
        shapes_total_len(s@) <= usize::MAX,
    ensures
        r == shapes_total_len(s@),
{
    let mut total: usize = 0;
    let mut j: usize = 0;
    while j < s.len()
        invariant
            j <= s@.len(),
            total == shapes_total_len(s@.subrange(0, j as int)),
            shapes_total_len(s@) <= usize::MAX,
        decreases s@.len() - j,
    {
        proof {
            assert(s@.subrange(0, j + 1).drop_last() =~= s@.subrange(0, j as int));
            lemma_shapes_total_len_prefix(s@, j + 1);
        }
        let c = contours_points_count(s[j].as_slice());
        total = total + c;
        j += 1;
    }
    proof {
        assert(s@.subrange(0, s@.len() as int) =~= s@);
    }
    total
}

/// Counting the points of contours or shapes.
pub trait PointsCount {
    /// The total fits in a `usize`.
    spec fn count_fits(&self) -> bool;

    fn points_count(&self) -> usize
        requires
            self.count_fits(),
    ;
}

impl PointsCount for [IntPath] {
    open spec fn count_fits(&self) -> bool {
        total_len(self@) <= usize::MAX
    }

    fn points_count(&self) -> (r: usize)
        ensures
            r == total_len(self@),
    {
        contours_points_count(self)
    }
}

impl PointsCount for [IntShape] {
    open spec fn count_fits(&self) -> bool {
        shapes_total_len(self@) <= usize::MAX
    }

    fn points_count(&self) -> (r: usize)
        ensures
            r == shapes_total_len(self@),
    {
        shapes_points_count(self)
    }
}

/// The size of the largest shape of a collection.
pub trait BiggestShapePoints {
    /// The size of every shape fits in a `usize`.
    spec fn sizes_fit(&self) -> bool;

    fn points_in_biggest_shape(&self) -> usize
        requires
            self.sizes_fit(),
    ;
}

impl BiggestShapePoints for [IntShape] {
    open spec fn sizes_fit(&self) -> bool {
        forall|j: int| 0 <= j < self@.len() ==> total_len(#[trigger] self@[j]@) <= usize::MAX
    }

    fn points_in_biggest_shape(&self) -> (r: usize)
        ensures
            r == biggest_shape_len(self@),
    {
        let mut best: usize = 0;
        let mut j: usize = 0;
        while j < self.len()
            invariant
                j <= self@.len(),
                best == biggest_shape_len(self@.subrange(0, j as int)),
                forall|k: int| 0 <= k < self@.len() ==> total_len(#[trigger] self@[k]@) <= usize::MAX,
            decreases self@.len() - j,
        {
            proof {
                assert(self@.subrange(0, j + 1).drop_last() =~= self@.subrange(0, j as int));
                assert(total_len(self@[j as int]@) <= usize::MAX);
            }
            let c = contours_points_count(self[j].as_slice());
            if c > best {
                best = c;
            }
            j += 1;
        }
        proof {
            assert(self@.subrange(0, self@.len() as int) =~= self@);
        }
        best
    }
}

} // verus!
