use vstd::prelude::*;

verus! {

/// Hands out a single contour as one path.
pub struct ContourResourceIterator<'a, P> {
    pub slice: &'a [P],
    pub finished: bool,
}

impl<'a, P> ContourResourceIterator<'a, P> {
    /// The paths not handed out yet.
    pub open spec fn remaining(&self) -> Seq<Seq<P>> {
        if self.finished {
            Seq::empty()
        } else {
            seq![self.slice@]
        }
    }

    pub fn with_slice(slice: &'a [P]) -> (r: Self)
        ensures
            r.remaining() == seq![slice@],
            r.slice@ == slice@,
    {
        Self { slice, finished: false }
    }

    /// The next path, if any is left.
    pub fn next_path(&mut self) -> (r: Option<&'a [P]>)
        ensures
            old(self).remaining().len() == 0 ==> r is None,
            old(self).remaining().len() > 0 ==> r is Some && r->0@ == old(self).remaining()[0],
            final(self).remaining() == if old(self).remaining().len() == 0 {
                old(self).remaining()
            } else {
                old(self).remaining().drop_first()
            },
    {
        if self.finished {
            return None;
        }
        self.finished = true;
        Some(self.slice)
    }

    /// The number of paths of the resource.
    pub fn count(&self) -> (r: usize)
        ensures
            r == 1,
    {
        1
    }

    /// The paths not handed out yet, in order.
    pub fn paths(self) -> (r: Vec<&'a [P]>)
        ensures
            r@.len() == self.remaining().len(),
            forall|k: int| 0 <= k < r@.len() ==> (#[trigger] r@[k])@ == self.remaining()[k],
    {
        let mut it = self;
        let mut out: Vec<&'a [P]> = Vec::new();
        match it.next_path() {
            Some(p) => out.push(p),
            None => {},
        }
        out
    }
}

/// A value whose points can be handed out as a single contour.
pub trait ContourResource<P> {
    fn iter_paths(&self) -> ContourResourceIterator<'_, P>;
}

impl<P> ContourResource<P> for [P] {
    fn iter_paths(&self) -> (r: ContourResourceIterator<'_, P>)
        ensures
            r.remaining() == seq![self@],
    {
        ContourResourceIterator::with_slice(self)
    }
}

} // verus!
