//! Exact repair and intersection primitives for polygon contours on an
//! integer lattice: removal of collinear points and zero-width spikes from
//! closed rings, classification of how two segments cross, and the signed
//! area, orientation and convexity measures they rest on.

pub mod point;
pub mod ring;
pub mod repair;
pub mod contour;
pub mod simple;
pub mod despike;
pub mod triangle;
pub mod bnd;
pub mod edge;
pub mod source;
pub mod path;
pub mod laws;
pub mod count;
pub mod fix;
pub mod util;
pub mod reverse;
pub mod flat;
