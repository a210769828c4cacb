use i_shape::source::shape::ShapeResource;

#[test]
fn shape_test_resource_fixed_array() {
    let array = [vec![[0.0, 0.0], [0.0, 1.0]]];

    let count = array.iter_paths().paths().iter().fold(0, |s, it| s + it.len());

    assert_eq!(count, 2);
}

#[test]
fn shape_test_resource_slice_array() {
    let array = [vec![[0.0, 0.0], [0.0, 1.0]]];

    let count = array.as_slice().iter_paths().paths().iter().fold(0, |s, it| s + it.len());

    assert_eq!(count, 2);
}

#[test]
fn shape_test_resource_vec_array() {
    let array = vec![vec![[0.0, 0.0], [0.0, 1.0]]];

    let count = array.iter_paths().paths().iter().fold(0, |s, it| s + it.len());

    assert_eq!(count, 2);
}
