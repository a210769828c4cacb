use i_shape::bnd::FixBnd;
use i_shape::count::{BiggestShapePoints, PointsCount};
use i_shape::fix::{FixPathExtension, FixPathsExtension, FixShape, FixShapesExtension};
use i_shape::path::{ring_contains, ContourExtension, DedupContour, IntContourReverse};
use i_shape::point::{FixVec, IndexPoint, IntPoint};
use i_shape::reverse::ContourReverse;
use i_shape::source::contour::ContourResourceIterator;
use i_shape::source::shape::ShapeResourceIterator;
use i_shape::source::shapes::ShapesResourceIterator;
use i_shape::triangle::Triangle;
use i_shape::util::Reserve;

fn pts(list: &[(i32, i32)]) -> Vec<IntPoint> {
    list.iter().map(|&(x, y)| IntPoint::new(x, y)).collect()
}

fn fix(list: &[(i64, i64)]) -> Vec<FixVec> {
    list.iter().map(|&(x, y)| FixVec::new(x, y)).collect()
}

#[test]
fn triangle_predicates() {
    let a = FixVec::new(0, 0);
    let b = FixVec::new(0, 4);
    let c = FixVec::new(4, 0);
    assert_eq!(Triangle::unsafe_area_two(a, b, c), 16);
    assert_eq!(Triangle::unsafe_area(a, b, c), 8);
    assert!(Triangle::is_clockwise(a, b, c));
    assert!(!Triangle::is_clockwise(a, c, b));
    assert_eq!(Triangle::clock_direction(a, b, c), 1);
    assert_eq!(Triangle::clock_direction(a, c, b), -1);
    assert_eq!(Triangle::clock_direction(a, b, FixVec::new(0, 9)), 0);
    assert!(Triangle::is_cw_or_line(a, b, FixVec::new(0, 9)));
    assert!(!Triangle::is_not_line(a, b, FixVec::new(0, 9)));
    assert!(Triangle::is_contain(FixVec::new(1, 1), a, b, c));
    assert!(!Triangle::is_contain(FixVec::new(5, 5), a, b, c));
    assert!(Triangle::is_not_contain(FixVec::new(5, 5), a, b, c));
    assert!(Triangle::is_not_contain(FixVec::new(0, 2), a, b, c));
    assert!(!Triangle::is_not_contain(FixVec::new(1, 1), a, b, c));
}

#[test]
fn bounding_boxes() {
    let b = FixBnd::new_two_points(FixVec::new(5, -1), FixVec::new(-3, 7));
    assert_eq!(b.min, FixVec::new(-3, -1));
    assert_eq!(b.max, FixVec::new(5, 7));
    let c = FixBnd::new_poitns(&fix(&[(1, 1), (-4, 3), (2, -6)]));
    assert_eq!(c.min, FixVec::new(-4, -6));
    assert_eq!(c.max, FixVec::new(2, 3));
    let u = b.union(c);
    assert_eq!(u.min, FixVec::new(-4, -6));
    assert_eq!(u.max, FixVec::new(5, 7));
    assert!(b.is_collide(c));
    assert!(!b.is_collide(FixBnd::new_min_max(FixVec::new(6, 0), FixVec::new(9, 9))));
    assert!(u.is_inside(b));
    assert!(!b.is_inside(u));
    assert!(b.is_contain(FixVec::new(5, 7)));
    assert!(!b.is_contain(FixVec::new(6, 7)));
}

#[test]
fn convexity() {
    assert!(pts(&[(0, 0), (0, 2), (2, 2), (2, 0)]).is_convex());
    assert!(!pts(&[(0, 0), (1, 2), (0, 4), (4, 2), (2, 0)]).is_convex());
    assert!(!pts(&[(0, 0), (1, 0), (0, 0), (0, 5)]).is_convex());
    assert!(pts(&[]).is_convex());
}

#[test]
fn dedup_closing_and_single_point() {
    let mut c = pts(&[(0, 0), (0, 0), (1, 0), (1, 1), (1, 1), (0, 0)]);
    assert!(c.dedup_contour());
    assert_eq!(c, pts(&[(0, 0), (1, 0), (1, 1)]));
    let mut one = pts(&[(3, 3)]);
    assert!(one.dedup_contour());
    assert!(one.is_empty());
    let mut clean = pts(&[(0, 0), (1, 0), (1, 1)]);
    assert!(!clean.dedup_contour());
}

#[test]
fn counts() {
    let shape = vec![pts(&[(0, 0), (1, 0), (1, 1)]), pts(&[(0, 0), (1, 0)])];
    let shapes = vec![shape.clone(), vec![pts(&[(0, 0), (1, 0), (1, 1), (0, 1)])]];
    assert_eq!(shape.as_slice().points_count(), 5);
    assert_eq!(shapes.as_slice().points_count(), 9);
    assert_eq!(shapes.as_slice().points_in_biggest_shape(), 5);
    let none: Vec<Vec<Vec<IntPoint>>> = Vec::new();
    assert_eq!(none.as_slice().points_in_biggest_shape(), 0);
    let paths = vec![fix(&[(0, 0), (1, 1)]), fix(&[(2, 2)])];
    assert_eq!(paths.as_slice().points_count(), 3);
    let fs = vec![FixShape::new(paths.clone()), FixShape::new(vec![fix(&[(0, 0)])])];
    assert_eq!(fs.as_slice().points_count(), 4);
    assert_eq!(fs[0].points_count(), 3);
}

#[test]
fn reversing_contours() {
    let mut shape = vec![pts(&[(0, 0), (1, 0), (1, 1)]), pts(&[(5, 5), (6, 6)])];
    IntContourReverse::reverse_contours(&mut shape);
    assert_eq!(shape[0], pts(&[(1, 1), (1, 0), (0, 0)]));
    assert_eq!(shape[1], pts(&[(6, 6), (5, 5)]));
    let mut shapes = vec![shape.clone()];
    IntContourReverse::reverse_contours(&mut shapes);
    assert_eq!(shapes[0][0], pts(&[(0, 0), (1, 0), (1, 1)]));
    let mut floats = vec![vec![[0.0, 1.0], [2.0, 3.0]]];
    ContourReverse::reverse_contours(&mut floats);
    assert_eq!(floats[0], vec![[2.0, 3.0], [0.0, 1.0]]);
}

#[test]
fn fixed_paths_and_shapes() {
    let cw = fix(&[(0, 0), (0, 1024), (1024, 1024), (1024, 0)]);
    let ccw: Vec<FixVec> = cw.iter().rev().cloned().collect();
    assert_eq!(cw.unsafe_area(), 2 * 1024 * 1024);
    assert_eq!(cw.fix_area(), 1024);
    assert_eq!(ccw.fix_area(), -1024);
    assert!(cw.is_clockwise_ordered());
    let shape = FixShape::new_with_contour(ccw.clone());
    assert_eq!(shape.contour(), &cw);
    assert!(shape.is_convex_polygon());
    let mut with_hole = FixShape::new_with_contour_and_holes(cw.clone(), vec![cw.clone()]);
    assert_eq!(with_hole.holes()[0], ccw);
    with_hole.add_hole(ccw.clone());
    assert_eq!(with_hole.holes().len(), 2);
    assert_eq!(with_hole.holes()[1], ccw);
    assert!(!with_hole.is_convex_polygon());
    let mut straight = fix(&[(0, 0), (0, 512), (0, 1024), (1024, 1024), (1024, 0)]);
    assert_eq!(straight.removed_degenerates(), cw);
    straight.remove_degenerates();
    assert_eq!(straight, cw);
    assert_eq!(IndexPoint::new(3, FixVec::new(1, 2)).index, 3);
}

#[test]
fn reserve_keeps_contents() {
    let mut v = vec![1, 2, 3];
    v.reserve_capacity(100);
    assert_eq!(v, vec![1, 2, 3]);
    assert!(v.capacity() >= 100);
    v.reserve_capacity(1);
    assert_eq!(v, vec![1, 2, 3]);
}

#[test]
fn resource_iterators_step_by_step() {
    let points = [1, 2, 3];
    let mut it = ContourResourceIterator::with_slice(&points);
    assert_eq!(it.count(), 1);
    assert_eq!(it.next_path(), Some(&points[..]));
    assert_eq!(it.next_path(), None);

    let shape = vec![vec![1, 2], vec![], vec![3]];
    let mut it = ShapeResourceIterator::with_slice(&shape);
    assert_eq!(it.count(), 3);
    assert_eq!(it.next_path().unwrap(), &[1, 2]);
    assert_eq!(it.next_path().unwrap().len(), 0);
    assert_eq!(it.next_path().unwrap(), &[3]);
    assert!(it.next_path().is_none());

    let shapes = vec![vec![], vec![vec![1], vec![2, 3]], vec![], vec![vec![4]]];
    let mut it = ShapesResourceIterator::with_slice(&shapes);
    assert_eq!(it.count(), 3);
    assert_eq!(it.next_path().unwrap(), &[1]);
    assert_eq!(it.next_path().unwrap(), &[2, 3]);
    assert_eq!(it.next_path().unwrap(), &[4]);
    assert!(it.next_path().is_none());
    assert!(it.next_path().is_none());
}

#[test]
fn point_in_contour() {
    let square = pts(&[(0, 0), (0, 10), (10, 10), (10, 0)]);
    assert!(ring_contains(&square, IntPoint::new(5, 5)));
    assert!(!ring_contains(&square, IntPoint::new(15, 5)));
    assert!(!ring_contains(&square, IntPoint::new(-1, 5)));
    let notch = pts(&[(0, 0), (0, 10), (10, 10), (10, 0), (5, 5)]);
    assert!(!ring_contains(&notch, IntPoint::new(5, 2)));
    assert!(ring_contains(&notch, IntPoint::new(5, 8)));
    let empty: Vec<IntPoint> = Vec::new();
    assert!(!ring_contains(&empty, IntPoint::new(0, 0)));
    let fsq = fix(&[(0, 0), (0, 1024), (1024, 1024), (1024, 0)]);
    assert!(fsq.contains(FixVec::new(512, 512)));
    assert!(!fsq.contains(FixVec::new(2048, 512)));
}

#[test]
fn box_of_radius() {
    let b = FixBnd::new_radius(7);
    assert_eq!(b.min, FixVec::new(-7, -7));
    assert_eq!(b.max, FixVec::new(7, 7));
    assert!(b.is_contain(FixVec::new(-7, 7)));
}
