use vstd::prelude::*;
use crate::contour::{
    contour_clean, contour_outcome, kept_shape, nonempty, opt_shape_view, opt_view,
    repair_contour_in_place, repair_shape_in_place, repair_shapes_in_place, repaired_contour,
    repaired_shape, repaired_shapes, shape_clean, shape_has_no_defects, shape_outcome, shape_view,
    shapes_clean, shapes_have_no_defects, shapes_outcome, shapes_view,
};
use crate::point::{Defect, IntPoint};
use crate::repair::has_no_defects;

verus! {

/// A closed ring of lattice points.
pub type IntContour = Vec<IntPoint>;

/// An outer contour followed by its holes.
pub type IntShape = Vec<IntContour>;

/// A collection of shapes.
pub type IntShapes = Vec<IntShape>;

/// Removing, in place, every point that does not change the direction of the path.
pub trait Simplify {
    /// Simplifies in place; returns whether anything had to change.
    fn simplify_contour(&mut self) -> bool;
}

/// Collinear-point checks and removal on a single contour.
pub trait SimpleContour {
    /// Whether the contour has at least three points and none of them is
    /// collinear with its neighbours.
    fn is_simple(&self) -> bool;

    /// The contour without its collinear points; `None` when fewer than three remain.
    fn simplified(&self) -> Option<IntContour>;
}

/// Collinear-point checks and removal on a shape.
pub trait SimpleShape {
    /// Whether every contour of the shape is simple.
    fn is_simple(&self) -> bool;

    /// The shape with every contour simplified; `None` when the outer contour degenerates.
    fn simplified(&self) -> Option<IntShape>;
}

/// Collinear-point checks and removal on a collection of shapes.
pub trait SimpleShapes {
    /// Whether every shape is simple.
    fn is_simple(&self) -> bool;

    /// The shapes simplified, without those whose outer contour degenerates.
    fn simplified(&self) -> IntShapes;
}

impl SimpleContour for [IntPoint] {
    fn is_simple(&self) -> (r: bool)
        ensures
            r == contour_clean(Defect::Collinear, self@),
    {
        has_no_defects(self, Defect::Collinear)
    }

    fn simplified(&self) -> (r: Option<IntContour>)
        ensures
            contour_outcome(Defect::Collinear, self@, opt_view(r)),
    {
        repaired_contour(self, Defect::Collinear)
    }
}

impl SimpleShape for [IntContour] {
    fn is_simple(&self) -> (r: bool)
        ensures
            r == shape_clean(Defect::Collinear, shape_view(self@)),
    {
        shape_has_no_defects(self, Defect::Collinear)
    }

    fn simplified(&self) -> (r: Option<IntShape>)
        ensures
            shape_outcome(Defect::Collinear, shape_view(self@), opt_shape_view(r)),
    {
        repaired_shape(self, Defect::Collinear)
    }
}

impl SimpleShapes for [IntShape] {
    fn is_simple(&self) -> (r: bool)
        ensures
            r == shapes_clean(Defect::Collinear, shapes_view(self@)),
    {
        shapes_have_no_defects(self, Defect::Collinear)
    }

    fn simplified(&self) -> (r: IntShapes)
        ensures
            shapes_outcome(Defect::Collinear, shapes_view(self@), shapes_view(r@)),
    {
        repaired_shapes(self, Defect::Collinear)
    }
}

impl Simplify for IntContour {
    fn simplify_contour(&mut self) -> (changed: bool)
        ensures
            changed == !contour_clean(Defect::Collinear, old(self)@),
            contour_outcome(Defect::Collinear, old(self)@, nonempty(final(self)@)),
    {
        repair_contour_in_place(self, Defect::Collinear)
    }
}

impl Simplify for IntShape {
    fn simplify_contour(&mut self) -> (changed: bool)
        ensures
            changed == !shape_clean(Defect::Collinear, shape_view(old(self)@)),
            !changed ==> final(self)@ == old(self)@,
            changed ==> shape_outcome(
                Defect::Collinear,
                shape_view(old(self)@),
                kept_shape(shape_view(old(self)@), shape_view(final(self)@)),
            ),
    {
        repair_shape_in_place(self, Defect::Collinear)
    }
}

impl Simplify for IntShapes {
    fn simplify_contour(&mut self) -> (changed: bool)
        ensures
            changed == !shapes_clean(Defect::Collinear, shapes_view(old(self)@)),
            !changed ==> final(self)@ == old(self)@,
            changed ==> shapes_outcome(Defect::Collinear, shapes_view(old(self)@), shapes_view(final(self)@)),
    {
        repair_shapes_in_place(self, Defect::Collinear)
    }
}

} // verus!
