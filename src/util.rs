use vstd::prelude::*;

verus! {

/// Relies on `Vec::capacity`: the number of elements the vector can hold
/// without reallocating. Nothing is promised of the value, which depends on
/// the allocator.
#[verifier::external_body]
fn capacity_of<T>(v: &Vec<T>) -> (r: usize) {
    v.capacity()
}

/// Growing a vector's capacity ahead of use.
pub trait Reserve {
    /// Makes room for at least `new_capacity` elements in all; the contents stay.
    fn reserve_capacity(&mut self, new_capacity: usize);
}

impl<T> Reserve for Vec<T> {
    fn reserve_capacity(&mut self, new_capacity: usize)
        ensures
            final(self)@ == old(self)@,
    {
        let old_capacity = capacity_of(self);
        if old_capacity < new_capacity {
            let additional = new_capacity - old_capacity;
            self.reserve(additional);
        }
    }
}

} // verus!
