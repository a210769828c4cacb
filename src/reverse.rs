use vstd::prelude::*;
use crate::path::reversed_points;

verus! {

/// Reverses the order of the points of every contour of a shape.
pub trait ContourReverse {
    fn reverse_contours(&mut self);
}

impl<P: Copy> ContourReverse for Vec<Vec<P>> {
    fn reverse_contours(&mut self)
        ensures
            final(self)@.len() == old(self)@.len(),
            forall|j: int| 0 <= j < final(self)@.len() ==> (#[trigger] final(self)@[j])@ == old(self)@[j]@.reverse(),
    {
        let n = self.len();
        let mut out: Vec<Vec<P>> = Vec::with_capacity(n);
        let mut j: usize = 0;
        while j < n
            invariant
                n == self@.len(),
                j <= n,
                self@ == old(self)@,
                out@.len() == j,
                forall|k: int| 0 <= k < j ==> (#[trigger] out@[k])@ == old(self)@[k]@.reverse(),
            decreases n - j,
        {
            out.push(reversed_points(self[j].as_slice()));
            j += 1;
        }
        *self = out;
    }
}

} // verus!
