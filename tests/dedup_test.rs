use i_shape::path::DedupContour;
use i_shape::point::IntPoint;

#[test]
fn dedup_test_0() {
    let mut contour =
        vec![
                IntPoint::new(0, 0),
                IntPoint::new(1, 0),
        ];

    let modified = contour.dedup_contour();

    assert_eq!(contour.len(), 2);
    assert_eq!(modified, false);
}

#[test]
fn dedup_test_1() {
    let mut contour =
        vec![
            IntPoint::new(0, 0),
            IntPoint::new(1, 0),
            IntPoint::new(0, 0),
        ];

    let modified = contour.dedup_contour();

    assert_eq!(contour.len(), 2);
    assert_eq!(modified, true);
}

#[test]
fn dedup_test_2() {
    let mut contour =
        vec![
            IntPoint::new(0, 0),
            IntPoint::new(0, 0),
            IntPoint::new(1, 0),
        ];

    let modified = contour.dedup_contour();

    assert_eq!(contour.len(), 2);
    assert_eq!(modified, true);
}
