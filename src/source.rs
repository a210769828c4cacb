pub mod contour;
pub mod shape;
pub mod shapes;
