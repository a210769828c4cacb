use vstd::prelude::*;
use crate::contour::shape_view;

verus! {

/// Hands out the contours of one shape, in order.
pub struct ShapeResourceIterator<'a, P> {
    pub slice: &'a [Vec<P>],
    pub index: usize,
}

impl<'a, P> ShapeResourceIterator<'a, P> {
    /// The paths not handed out yet.
    pub open spec fn remaining(&self) -> Seq<Seq<P>> {
        if self.index < self.slice@.len() {
            shape_view(self.slice@).subrange(self.index as int, self.slice@.len() as int)
        } else {
            Seq::empty()
        }
    }

    pub fn with_slice(slice: &'a [Vec<P>]) -> (r: Self)
        ensures
            r.remaining() == shape_view(slice@),
            r.slice@ == slice@,
    {
        let r = Self { slice, index: 0 };
        proof {
            assert(shape_view(slice@).subrange(0, slice@.len() as int) =~= shape_view(slice@));
        }
        r
    }

    /// The next path, if any is left.
    pub fn next_path(&mut self) -> (r: Option<&'a [P]>)
        ensures
            old(self).remaining().len() == 0 ==> r is None,
            old(self).remaining().len() > 0 ==> r is Some && r->0@ == old(self).remaining()[0],
            final(self).remaining() == if old(self).remaining().len() == 0 {
                old(self).remaining()
            } else {
                old(self).remaining().drop_first()
            },
            final(self).slice@ == old(self).slice@,
    {
        if self.index >= self.slice.len() {
            return None;
        }
        let i = self.index;
        self.index += 1;
        proof {
            assert(self.remaining() =~= old(self).remaining().drop_first());
        }
        Some(self.slice[i].as_slice())
    }

    /// The number of contours of the shape.
    pub fn count(&self) -> (r: usize)
        ensures
            r == self.slice@.len(),
    {
        self.slice.len()
    }

    /// The paths not handed out yet, in order.
    pub fn paths(self) -> (r: Vec<&'a [P]>)
        ensures
            r@.len() == self.remaining().len(),
            forall|k: int| 0 <= k < r@.len() ==> (#[trigger] r@[k])@ == self.remaining()[k],
    {
        let ghost all = self.remaining();
        let mut it = self;
        let mut out: Vec<&'a [P]> = Vec::new();
        loop
            invariant
                all == out@.map_values(|p: &'a [P]| p@) + it.remaining(),
            ensures
                all == out@.map_values(|p: &'a [P]| p@) + it.remaining(),
                it.remaining().len() == 0,
            decreases it.remaining().len(),
        {
            match it.next_path() {
                Some(p) => {
                    proof {
                        assert(out@.push(p).map_values(|q: &'a [P]| q@) =~= out@.map_values(|q: &'a [P]| q@).push(p@));
                    }
                    out.push(p);
                },
                None => break,
            }
        }
        proof {
            assert(out@.map_values(|p: &'a [P]| p@) =~= all);
            assert forall|k: int| 0 <= k < out@.len() implies (#[trigger] out@[k])@ == all[k] by {
                assert(out@.map_values(|p: &'a [P]| p@)[k] == out@[k]@);
            }
        }
        out
    }
}

/// A value whose contours can be handed out one by one.
pub trait ShapeResource<P> {
    fn iter_paths(&self) -> ShapeResourceIterator<'_, P>;
}

impl<P> ShapeResource<P> for [Vec<P>] {
    fn iter_paths(&self) -> (r: ShapeResourceIterator<'_, P>)
        ensures
            r.remaining() == shape_view(self@),
    {
        ShapeResourceIterator::with_slice(self)
    }
}

} // verus!
