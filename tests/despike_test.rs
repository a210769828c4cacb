use i_shape::despike::DeSpike;
use i_shape::point::IntPoint;

#[test]
fn despike_test_0() {
    let mut contour =
        vec![
            IntPoint::new(0, 0),
            IntPoint::new(1, 0),
            IntPoint::new(1, 1),
            IntPoint::new(0, 1),
        ];

    let modified = contour.remove_spikes();

    assert_eq!(contour.len(), 4);
    assert_eq!(modified, false);
}

#[test]
fn despike_test_1() {
    let mut contour =
        vec![
            IntPoint::new(0, -1),
            IntPoint::new(0, 1),
            IntPoint::new(1, 1),
            IntPoint::new(1, 0),
            IntPoint::new(0, 0),
        ];

    let modified = contour.remove_spikes();

    assert_eq!(contour.len(), 4);
    assert_eq!(modified, true);
}

#[test]
fn despike_test_2() {
    let mut contour =
        vec![
            IntPoint::new(0, -1),
            IntPoint::new(0, 1),
            IntPoint::new(1, 1),
            IntPoint::new(1, 0),
            IntPoint::new(0, 0),
        ];

    let modified = contour.remove_spikes();

    assert_eq!(contour.len(), 4);
    assert_eq!(modified, true);
}

#[test]
fn test_3() {
    let mut contour =
        vec![
            IntPoint::new(0, 0),
            IntPoint::new(0, 2),
            IntPoint::new(1, 2),
            IntPoint::new(3, 2),
            IntPoint::new(4, 2),
            IntPoint::new(2, 2),
            IntPoint::new(2, 0),
        ];

    let modified = contour.remove_spikes();

    assert_eq!(contour.len(), 5);
    assert_eq!(modified, true);
}

#[test]
fn test_4() {
    let mut contour =
        vec![
            IntPoint::new(0, 0),
            IntPoint::new(0, 2),
            IntPoint::new(1, 2),
            IntPoint::new(4, 2),
            IntPoint::new(3, 2),
            IntPoint::new(2, 2),
            IntPoint::new(2, 0),
        ];

    let modified = contour.remove_spikes();

    assert_eq!(contour.len(), 5);
    assert_eq!(modified, true);
}

#[test]
fn test_5() {
    let mut contour =
        vec![
            IntPoint::new(-10, 10),
            IntPoint::new(-10, 0),
            IntPoint::new(-10, -10),
            IntPoint::new(0, -10),
            IntPoint::new(10, -10),
            IntPoint::new(10, 0),
            IntPoint::new(10, 10),
            IntPoint::new(0, 10),
        ];

    let modified = contour.remove_spikes();

    assert_eq!(contour.len(), 8);
    assert_eq!(modified, false);
}
