use i_shape::flat::FlatContoursBuffer;
use i_shape::point::IntPoint;
use i_shape::simple::{IntContour, IntShape, IntShapes};
use rand::Rng;

fn make_contour(p: &[(i32, i32)]) -> IntContour {
    p.iter().map(|&(x, y)| IntPoint::new(x, y)).collect()
}

#[test]
fn test_contour_flat_round_trip() {
    let contour = make_contour(&[(1, 2), (3, 4), (5, 6)]);
    let mut flat = FlatContoursBuffer::with_capacity(0);
    flat.set_with_contour(&contour);

    let contours = flat.to_contours();
    assert_eq!(contours.len(), 1);
    assert_eq!(contours[0], contour);
}

#[test]
fn test_shape_flat_round_trip() {
    let shape = vec![
        make_contour(&[(0, 0), (1, 0), (1, 1), (0, 1)]),
        make_contour(&[(2, 2), (3, 2), (3, 3), (2, 3)]),
    ];
    let mut flat = FlatContoursBuffer::with_capacity(0);
    flat.set_with_shape(&shape);

    let contours = flat.to_contours();
    assert_eq!(contours.len(), 2);
    assert_eq!(contours[0].len(), 4);
    assert_eq!(contours[1].len(), 4);
}

#[test]
fn test_shapes_flat_round_trip() {
    let shapes = vec![
        vec![make_contour(&[(0, 0), (1, 0), (1, 1)])],
        vec![
            make_contour(&[(5, 5), (6, 5), (6, 6)]),
            make_contour(&[(7, 7), (8, 7), (8, 8)]),
        ],
    ];
    let mut flat = FlatContoursBuffer::with_capacity(0);
    flat.set_with_shapes(&shapes);

    let contours = flat.to_contours();
    assert_eq!(contours.len(), 3);
    assert_eq!(contours[0].len(), 3);
    assert_eq!(contours[1].len(), 3);
    assert_eq!(contours[2].len(), 3);
}

#[test]
fn flat_first_contour_and_flags() {
    let mut flat = FlatContoursBuffer::with_capacity(4);
    assert!(flat.is_empty());
    assert_eq!(flat.as_first_contour().len(), 0);
    let a = make_contour(&[(0, 0), (1, 0), (1, 1)]);
    let b = make_contour(&[(5, 5), (6, 5), (6, 6), (5, 6)]);
    flat.set_with_contour(&a);
    assert!(flat.is_single_contour());
    flat.add_contour(&b);
    assert!(!flat.is_single_contour());
    assert_eq!(flat.as_first_contour(), a.as_slice());
    assert_eq!(flat.to_contours(), vec![a.clone(), b.clone()]);
    assert_eq!(flat.points.len(), 7);
    flat.clear_and_reserve(10, 2);
    assert!(flat.is_empty());
    assert_eq!(flat.to_contours().len(), 0);
}

#[test]
fn test_random_shapes_round_trip() {
    let mut rng = rand::rng();
    let mut shapes: IntShapes = Vec::new();

    for _ in 0..5 {
        let mut shape: IntShape = Vec::new();
        let contour_count = rng.random_range(1..4);
        for _ in 0..contour_count {
            let mut contour: IntContour = Vec::new();
            let point_count = rng.random_range(3..7);
            for _ in 0..point_count {
                let x = rng.random_range(-100..100);
                let y = rng.random_range(-100..100);
                contour.push(IntPoint::new(x, y));
            }
            shape.push(contour);
        }
        shapes.push(shape);
    }

    let mut flat = FlatContoursBuffer::with_capacity(0);
    flat.set_with_shapes(&shapes);
    let contours = flat.to_contours();
    assert_eq!(contours.len(), shapes.iter().fold(0, |s, shape| s + shape.len()));
}
