use i_shape::despike::{DeSpike, DeSpikeContour};
use i_shape::edge::{EdgeCrossType, FixEdge};
use i_shape::path::{Area, ContourExtension};
use i_shape::point::{FixVec, IntPoint};
use i_shape::simple::{SimpleContour, Simplify};

fn pts(list: &[(i32, i32)]) -> Vec<IntPoint> {
    list.iter().map(|&(x, y)| IntPoint::new(x, y)).collect()
}

fn collinear(a: IntPoint, b: IntPoint, c: IntPoint) -> bool {
    let ux = (b.x - a.x) as i64;
    let uy = (b.y - a.y) as i64;
    let vx = (c.x - b.x) as i64;
    let vy = (c.y - b.y) as i64;
    ux * vy - uy * vx == 0
}

#[test]
fn scenario_duplicate_point_is_simplified() {
    let contour = pts(&[(0, 0), (0, 1), (0, 1), (1, 1), (1, 0)]);
    let simple = contour.simplified().unwrap();
    assert_eq!(simple, pts(&[(0, 0), (0, 1), (1, 1), (1, 0)]));
}

#[test]
fn scenario_reversal_is_despiked() {
    let mut contour = pts(&[(0, 0), (0, 2), (1, 2), (4, 2), (3, 2), (2, 2), (2, 0)]);
    let modified = contour.remove_spikes();
    assert!(modified);
    assert_eq!(contour.len(), 5);
    assert!(contour.has_no_spikes());
}

#[test]
fn scenario_two_points_degenerate() {
    let contour = pts(&[(0, 0), (5, 5)]);
    assert!(contour.simplified().is_none());
    assert!(contour.despiked_contour().is_none());
    let mut a = contour.clone();
    assert!(a.simplify_contour());
    assert!(a.is_empty());
    let mut b = contour.clone();
    assert!(b.remove_spikes());
    assert!(b.is_empty());
}

#[test]
fn scenario_empty_contour_degenerates() {
    let contour: Vec<IntPoint> = Vec::new();
    assert!(!contour.is_simple());
    assert!(contour.simplified().is_none());
}

#[test]
fn repair_is_idempotent() {
    let contour = pts(&[(0, 0), (0, 1024), (0, 1024), (512, 1024), (1024, 1024), (1024, 1024), (1024, 0)]);
    let once = contour.simplified().unwrap();
    assert!(once.is_simple());
    let mut again = once.clone();
    assert!(!again.simplify_contour());
    assert_eq!(again, once);
}

#[test]
fn repair_leaves_no_collinear_triple() {
    let contour = pts(&[(0, 0), (0, 5), (0, 10), (5, 10), (10, 10), (10, 5), (10, 0), (5, 0), (3, 0)]);
    let simple = contour.simplified().unwrap();
    let n = simple.len();
    assert!(n >= 3);
    for j in 0..n {
        let a = simple[(j + n - 1) % n];
        let b = simple[j];
        let c = simple[(j + 1) % n];
        assert!(!collinear(a, b, c));
    }
    assert_eq!(simple.len(), 4);
}

#[test]
fn straight_point_kept_by_despike_dropped_by_simplify() {
    let contour = pts(&[(0, 0), (0, 1), (0, 2), (2, 2), (2, 0)]);
    assert!(contour.has_no_spikes());
    let mut despiked = contour.clone();
    assert!(!despiked.remove_spikes());
    assert_eq!(despiked, contour);
    let mut simple = contour.clone();
    assert!(simple.simplify_contour());
    assert_eq!(simple, pts(&[(0, 0), (0, 2), (2, 2), (2, 0)]));
}

#[test]
fn reversal_flips_area_sign() {
    let contour = pts(&[(0, 0), (1, 3), (4, 4), (6, 1), (3, -2)]);
    let area = contour.area_two();
    let reversed = contour.to_reversed();
    assert_eq!(reversed.area_two(), -area);
    assert_eq!(area, contour.unsafe_area());
    assert!(area != 0);
    assert_eq!(contour.is_clockwise_ordered(), area >= 0);
    assert_eq!(reversed.is_clockwise_ordered(), -area >= 0);
}

#[test]
fn area_of_square_and_rounding() {
    let square = pts(&[(0, 0), (0, 3), (3, 3), (3, 0)]);
    assert_eq!(square.area_two(), 18);
    assert_eq!(square.area(), 9);
    let triangle = pts(&[(0, 0), (0, 1), (1, 0)]);
    assert_eq!(triangle.area_two(), 1);
    assert_eq!(triangle.area(), 0);
    let back = pts(&[(0, 0), (1, 0), (0, 1)]);
    assert_eq!(back.area_two(), -1);
    assert_eq!(back.area(), 0);
}

fn edge(x0: i64, y0: i64, x1: i64, y1: i64) -> FixEdge {
    FixEdge::new(FixVec::new(x0, y0), FixVec::new(x1, y1))
}

fn swapped(t: EdgeCrossType) -> EdgeCrossType {
    match t {
        EdgeCrossType::EndA => EdgeCrossType::EndB,
        EdgeCrossType::EndB => EdgeCrossType::EndA,
        EdgeCrossType::OverlayA => EdgeCrossType::OverlayB,
        EdgeCrossType::OverlayB => EdgeCrossType::OverlayA,
        other => other,
    }
}

#[test]
fn crossing_symmetry_on_examples() {
    let pairs = [
        (edge(-2, 0, 2, 0), edge(-1, 0, 1, 0)),
        (edge(-1024, 0, 512, 0), edge(0, 0, 1024, 0)),
        (edge(-10, 0, 10, 0), edge(-10, -10, -10, 10)),
        (edge(0, 0, 10, 0), edge(5, 0, 5, 7)),
        (edge(0, 0, 10, 0), edge(0, 0, 4, 0)),
        (edge(0, 0, 10, 10), edge(20, 0, 20, 30)),
    ];
    for (a, b) in pairs.iter() {
        let ab = a.cross(*b);
        let ba = b.cross(*a);
        assert_eq!(ab.is_some(), ba.is_some());
        if let (Some(x), Some(y)) = (ab, ba) {
            assert_eq!(swapped(x.nature), y.nature);
            if x.nature == EdgeCrossType::Penetrate {
                assert_eq!(x.point, y.second);
                assert_eq!(x.second, y.point);
            } else {
                assert_eq!(x.point, y.point);
            }
        }
    }
}

#[test]
fn scenario_pure_crossing_at_origin() {
    let r = edge(-1024, 0, 1024, 0).cross(edge(0, -1024, 0, 1024)).unwrap();
    assert_eq!(r.nature, EdgeCrossType::Pure);
    assert_eq!(r.point, FixVec::new(0, 0));
}

#[test]
fn scenario_overlay_b() {
    let r = edge(-2, 0, 2, 0).cross(edge(-1, 0, 1, 0)).unwrap();
    assert_eq!(r.nature, EdgeCrossType::OverlayB);
    let r = edge(-1, 0, 1, 0).cross(edge(-2, 0, 2, 0)).unwrap();
    assert_eq!(r.nature, EdgeCrossType::OverlayA);
}

#[test]
fn scenario_penetrate_points() {
    let r = edge(-1024, 0, 512, 0).cross(edge(0, 0, 1024, 0)).unwrap();
    assert_eq!(r.nature, EdgeCrossType::Penetrate);
    assert_eq!(r.point, FixVec::new(0, 0));
    assert_eq!(r.second, FixVec::new(512, 0));
}

#[test]
fn crossing_cases_each_kind() {
    assert!(edge(0, 0, 1, 0).cross(edge(5, 5, 6, 6)).is_none());
    assert!(edge(0, 0, 10, 0).cross(edge(20, 0, 30, 0)).is_none());
    assert!(edge(0, 0, 10, 0).cross(edge(0, 0, 10, 0)).is_none());
    assert!(edge(0, 0, 10, 0).cross(edge(10, 0, 20, 0)).is_none());
    assert!(edge(0, 0, 10, 0).cross(edge(0, 0, 0, 10)).is_none());
    let r = edge(0, 0, 10, 0).cross(edge(5, 0, 5, 7)).unwrap();
    assert_eq!(r.nature, EdgeCrossType::EndB);
    assert_eq!(r.point, FixVec::new(5, 0));
    let r = edge(0, 0, 10, 0).cross(edge(0, 0, 4, 0)).unwrap();
    assert_eq!(r.nature, EdgeCrossType::EndB);
    assert_eq!(r.point, FixVec::new(4, 0));
    let r = edge(0, 0, 3, 0).cross(edge(0, 0, 10, 0)).unwrap();
    assert_eq!(r.nature, EdgeCrossType::EndA);
    assert_eq!(r.point, FixVec::new(3, 0));
}

#[test]
fn crossing_point_is_rounded_toward_first_start() {
    let r = edge(0, 0, 3, 1).cross(edge(0, 1, 3, 0)).unwrap();
    assert_eq!(r.nature, EdgeCrossType::Pure);
    assert_eq!(r.point, FixVec::new(1, 0));
    let r = edge(0, 0, 0, 9).cross(edge(-2, 1, 2, 4)).unwrap();
    assert_eq!(r.nature, EdgeCrossType::Pure);
    assert_eq!(r.point, FixVec::new(0, 2));
    let r = edge(0, 0, 9, 0).cross(edge(1, -2, 4, 2)).unwrap();
    assert_eq!(r.nature, EdgeCrossType::Pure);
    assert_eq!(r.point, FixVec::new(2, 0));
}

#[test]
fn rounded_crossing_depends_on_segment_order() {
    let a = edge(0, 0, 3, 1);
    let b = edge(0, 1, 3, 0);
    let ab = a.cross(b).unwrap();
    let ba = b.cross(a).unwrap();
    assert_eq!(ab.nature, EdgeCrossType::Pure);
    assert_eq!(ba.nature, EdgeCrossType::Pure);
    assert_eq!(ab.point, FixVec::new(1, 0));
    assert_eq!(ba.point, FixVec::new(1, 1));
}
