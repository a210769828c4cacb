use vstd::prelude::*;
use crate::contour::{
    contour_clean, contour_outcome, kept_shape, nonempty, opt_shape_view, opt_view,
    repair_contour_in_place, repair_shape_in_place, repair_shapes_in_place, repaired_contour,
    repaired_shape, repaired_shapes, shape_clean, shape_has_no_defects, shape_outcome, shape_view,
    shapes_clean, shapes_have_no_defects, shapes_outcome, shapes_view,
};
use crate::point::Defect;
use crate::repair::has_no_defects;
use crate::simple::{IntContour, IntShape, IntShapes};

verus! {

/// Removing, in place, the points where the path reverses onto itself.
pub trait DeSpike {
    /// Removes spikes in place; returns whether any were found.
    fn remove_spikes(&mut self) -> bool;
}

/// Spike checks and removal on a single contour.
pub trait DeSpikeContour {
    /// Whether the contour has at least three points and no spike.
    fn has_no_spikes(&self) -> bool;

    /// The contour without its spikes; `None` when fewer than three points remain.
    fn despiked_contour(&self) -> Option<IntContour>;
}

/// Spike checks and removal on a shape.
pub trait DeSpikeShape {
    /// Whether no contour of the shape has a spike.
    fn has_no_spikes(&self) -> bool;

    /// The shape with every contour despiked; `None` when the outer contour degenerates.
    fn despiked_shape(&self) -> Option<IntShape>;
}

/// Spike checks and removal on a collection of shapes.
pub trait DeSpikeShapes {
    /// Whether no shape has a spike.
    fn has_no_spikes(&self) -> bool;

    /// The shapes despiked, without those whose outer contour degenerates.
    fn despiked_shapes(&self) -> IntShapes;
}

impl DeSpike for IntContour {
    fn remove_spikes(&mut self) -> (changed: bool)
        ensures
            changed == !contour_clean(Defect::Spike, old(self)@),
            contour_outcome(Defect::Spike, old(self)@, nonempty(final(self)@)),
    {
        repair_contour_in_place(self, Defect::Spike)
    }
}

impl DeSpikeContour for IntContour {
    fn has_no_spikes(&self) -> (r: bool)
        ensures
            r == contour_clean(Defect::Spike, self@),
    {
        has_no_defects(self.as_slice(), Defect::Spike)
    }

    fn despiked_contour(&self) -> (r: Option<IntContour>)
        ensures
            contour_outcome(Defect::Spike, self@, opt_view(r)),
    {
        repaired_contour(self.as_slice(), Defect::Spike)
    }
}

impl DeSpike for IntShape {
    fn remove_spikes(&mut self) -> (changed: bool)
        ensures
            changed == !shape_clean(Defect::Spike, shape_view(old(self)@)),
            !changed ==> final(self)@ == old(self)@,
            changed ==> shape_outcome(
                Defect::Spike,
                shape_view(old(self)@),
                kept_shape(shape_view(old(self)@), shape_view(final(self)@)),
            ),
    {
        repair_shape_in_place(self, Defect::Spike)
    }
}

impl DeSpikeShape for IntShape {
    fn has_no_spikes(&self) -> (r: bool)
        ensures
            r == shape_clean(Defect::Spike, shape_view(self@)),
    {
        shape_has_no_defects(self.as_slice(), Defect::Spike)
    }

    fn despiked_shape(&self) -> (r: Option<IntShape>)
        ensures
            shape_outcome(Defect::Spike, shape_view(self@), opt_shape_view(r)),
    {
        repaired_shape(self.as_slice(), Defect::Spike)
    }
}

impl DeSpike for IntShapes {
    fn remove_spikes(&mut self) -> (changed: bool)
        ensures
            changed == !shapes_clean(Defect::Spike, shapes_view(old(self)@)),
            !changed ==> final(self)@ == old(self)@,
            changed ==> shapes_outcome(Defect::Spike, shapes_view(old(self)@), shapes_view(final(self)@)),
    {
        repair_shapes_in_place(self, Defect::Spike)
    }
}

impl DeSpikeShapes for IntShapes {
    fn has_no_spikes(&self) -> (r: bool)
        ensures
            r == shapes_clean(Defect::Spike, shapes_view(self@)),
    {
        shapes_have_no_defects(self.as_slice(), Defect::Spike)
    }

    fn despiked_shapes(&self) -> (r: IntShapes)
        ensures
            shapes_outcome(Defect::Spike, shapes_view(self@), shapes_view(r@)),
    {
        repaired_shapes(self.as_slice(), Defect::Spike)
    }
}

} // verus!
