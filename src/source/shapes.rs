use vstd::prelude::*;
use crate::contour::shape_view;

verus! {

/// The contours of a collection of shapes, shape after shape.
pub open spec fn shapes_paths<P>(s: Seq<Vec<Vec<P>>>) -> Seq<Seq<P>>
    decreases s.len(),
{
    if s.len() == 0 {
        Seq::empty()
    } else {
        shape_view(s[0]@) + shapes_paths(s.subrange(1, s.len() as int))
    }
}

/// Hands out the contours of a collection of shapes, shape after shape.
pub struct ShapesResourceIterator<'a, P> {
    pub slice: &'a [Vec<Vec<P>>],
    pub i: usize,
    pub j: usize,
}

/// The contours of `s` from contour `j` of shape `i` on.
pub open spec fn shapes_paths_from<P>(s: Seq<Vec<Vec<P>>>, i: int, j: int) -> Seq<Seq<P>> {
    if 0 <= i < s.len() {
        let c = shape_view(s[i]@);
        let k = if 0 <= j <= c.len() { j } else { c.len() as int };
        c.subrange(k, c.len() as int) + shapes_paths(s.subrange(i + 1, s.len() as int))
    } else {
        Seq::empty()
    }
}

proof fn lemma_shapes_paths_step<P>(s: Seq<Vec<Vec<P>>>, i: int)
    requires
        0 <= i < s.len(),
    ensures
        shapes_paths_from(s, i, s[i]@.len() as int) == shapes_paths_from(s, i + 1, 0),
        shapes_paths(s.subrange(i, s.len() as int)) == shapes_paths_from(s, i, 0),
{
    let c = shape_view(s[i]@);
    assert(c.subrange(c.len() as int, c.len() as int) =~= Seq::<Seq<P>>::empty());
    assert(c.subrange(0, c.len() as int) =~= c);
    let t = s.subrange(i, s.len() as int);
    assert(t.subrange(1, t.len() as int) =~= s.subrange(i + 1, s.len() as int));
    assert(t[0] == s[i]);
    if i + 1 < s.len() {
        let u = s.subrange(i + 1, s.len() as int);
        let d = shape_view(s[i + 1]@);
        assert(u.subrange(1, u.len() as int) =~= s.subrange(i + 2, s.len() as int));
        assert(u[0] == s[i + 1]);
        assert(d.subrange(0, d.len() as int) =~= d);
    } else {
        assert(s.subrange(i + 1, s.len() as int) =~= Seq::<Vec<Vec<P>>>::empty());
    }
}

impl<'a, P> ShapesResourceIterator<'a, P> {
    /// The paths not handed out yet.
    pub open spec fn remaining(&self) -> Seq<Seq<P>> {
        shapes_paths_from(self.slice@, self.i as int, self.j as int)
    }

    pub fn with_slice(slice: &'a [Vec<Vec<P>>]) -> (r: Self)
        ensures
            r.remaining() == shapes_paths(slice@),
            r.slice@ == slice@,
    {
        let r = Self { slice, i: 0, j: 0 };
        proof {
            assert(slice@.subrange(0, slice@.len() as int) =~= slice@);
            if slice@.len() > 0 {
                lemma_shapes_paths_step(slice@, 0);
            }
        }
        r
    }

    /// The next path, if any is left; empty shapes are passed over.
    pub fn next_path(&mut self) -> (r: Option<&'a [P]>)
        ensures
            old(self).remaining().len() == 0 ==> r is None,
            old(self).remaining().len() > 0 ==> r is Some && r->0@ == old(self).remaining()[0],
            final(self).remaining() == if old(self).remaining().len() == 0 {
                old(self).remaining()
            } else {
                old(self).remaining().drop_first()
            },
            final(self).slice@ == old(self).slice@,
    {
        let ghost rest = self.remaining();
        if self.i < self.slice.len() && self.j > self.slice[self.i].len() {
            self.j = self.slice[self.i].len();
        }
        while self.i < self.slice.len()
            invariant
                self.remaining() == rest,
                rest == old(self).remaining(),
                self.slice@ == old(self).slice@,
                self.i < self.slice@.len() ==> self.j <= self.slice@[self.i as int]@.len(),
            decreases self.slice@.len() - self.i,
        {
            let sub = &self.slice[self.i];
            if self.j < sub.len() {
                let j = self.j;
                self.j += 1;
                proof {
                    let c = shape_view(self.slice@[self.i as int]@);
                    assert(c.subrange(j + 1, c.len() as int) =~= c.subrange(j as int, c.len() as int).drop_first());
                    assert(self.remaining() =~= rest.drop_first());
                    assert(rest[0] == c[j as int]);
                    assert(c[j as int] == self.slice@[self.i as int]@[j as int]@);
                }
                let p = sub[j].as_slice();
                proof {
                    assert(p@ == rest[0]);
                    assert(rest.len() > 0);
                }
                return Some(p);
            }
            proof {
                lemma_shapes_paths_step(self.slice@, self.i as int);
            }
            self.i += 1;
            self.j = 0;
        }
        None
    }

    /// The number of contours in all the shapes.
    pub fn count(&self) -> (r: usize)
        requires
            shapes_paths(self.slice@).len() <= usize::MAX,
        ensures
            r == shapes_paths(self.slice@).len(),
    {
        let mut total: usize = 0;
        let mut k: usize = self.slice.len();
        proof {
            assert(self.slice@.subrange(k as int, k as int) =~= Seq::<Vec<Vec<P>>>::empty());
        }
        while k > 0
            invariant
                k <= self.slice@.len(),
                total == shapes_paths(self.slice@.subrange(k as int, self.slice@.len() as int)).len(),
                shapes_paths(self.slice@).len() <= usize::MAX,
            decreases k,
        {
            k -= 1;
            proof {
                let t = self.slice@.subrange(k as int, self.slice@.len() as int);
                assert(t.subrange(1, t.len() as int) =~= self.slice@.subrange(k + 1, self.slice@.len() as int));
                lemma_shapes_paths_suffix(self.slice@, k as int);
                lemma_shapes_paths_suffix_le(self.slice@, k as int);
            }
            total = total + self.slice[k].len();
        }
        proof {
            assert(self.slice@.subrange(0, self.slice@.len() as int) =~= self.slice@);
        }
        total
    }

    /// The paths not handed out yet, in order.
    pub fn paths(self) -> (r: Vec<&'a [P]>)
        ensures
            r@.len() == self.remaining().len(),
            forall|k: int| 0 <= k < r@.len() ==> (#[trigger] r@[k])@ == self.remaining()[k],
    {
        let ghost all = self.remaining();
        let mut it = self;
        let mut out: Vec<&'a [P]> = Vec::new();
        loop
            invariant
                all == out@.map_values(|p: &'a [P]| p@) + it.remaining(),
            ensures
                all == out@.map_values(|p: &'a [P]| p@) + it.remaining(),
                it.remaining().len() == 0,
            decreases it.remaining().len(),
        {
            match it.next_path() {
                Some(p) => {
                    proof {
                        assert(out@.push(p).map_values(|q: &'a [P]| q@) =~= out@.map_values(|q: &'a [P]| q@).push(p@));
                    }
                    out.push(p);
                },
                None => break,
            }
        }
        proof {
            assert(out@.map_values(|p: &'a [P]| p@) =~= all);
            assert forall|k: int| 0 <= k < out@.len() implies (#[trigger] out@[k])@ == all[k] by {
                assert(out@.map_values(|p: &'a [P]| p@)[k] == out@[k]@);
            }
        }
        out
    }
}

/// The paths of a suffix grow by the contours of the shape in front of it.
proof fn lemma_shapes_paths_suffix<P>(s: Seq<Vec<Vec<P>>>, k: int)
    requires
        0 <= k < s.len(),
    ensures
        shapes_paths(s.subrange(k, s.len() as int)).len() == s[k]@.len() + shapes_paths(
            s.subrange(k + 1, s.len() as int),
        ).len(),
        shapes_paths(s.subrange(k + 1, s.len() as int)).len() <= shapes_paths(s.subrange(k, s.len() as int)).len(),
{
    let t = s.subrange(k, s.len() as int);
    assert(t.subrange(1, t.len() as int) =~= s.subrange(k + 1, s.len() as int));
}

/// A suffix has no more paths than the whole collection.
proof fn lemma_shapes_paths_suffix_le<P>(s: Seq<Vec<Vec<P>>>, k: int)
    requires
        0 <= k <= s.len(),
    ensures
        shapes_paths(s.subrange(k, s.len() as int)).len() <= shapes_paths(s).len(),
    decreases k,
{
    if k == 0 {
        assert(s.subrange(0, s.len() as int) =~= s);
    } else {
        lemma_shapes_paths_suffix(s, k - 1);
        lemma_shapes_paths_suffix_le(s, k - 1);
    }
}

/// A collection whose contours can be handed out shape after shape.
pub trait ShapesResource<P> {
    fn iter_paths(&self) -> ShapesResourceIterator<'_, P>;
}

impl<P> ShapesResource<P> for [Vec<Vec<P>>] {
    fn iter_paths(&self) -> (r: ShapesResourceIterator<'_, P>)
        ensures
            r.remaining() == shapes_paths(self@),
    {
        ShapesResourceIterator::with_slice(self)
    }
}

} // verus!
