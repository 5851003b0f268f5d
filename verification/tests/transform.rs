use raytracing::util::transform_coord;

// functions returns a valid result
#[test]
fn transform_coordinates_with_valid_values() {
    let (x, y) = transform_coord(0, 0, 10, 10);
    assert_eq!(x, -5);
    assert_eq!(y, 5);
}

#[test]
fn transform_coordinatess_with_valid_values() {
    let (x, y) = transform_coord(0, 0, 10, 10);
    assert_eq!(x, -5);
    assert_eq!(y, 5);
}

#[test]
fn transform_coordinates_at_far_corner() {
    let (x, y) = transform_coord(9, 9, 10, 10);
    assert_eq!(x, 4);
    assert_eq!(y, -4);
}

#[test]
fn transform_coordinates_with_odd_canvas() {
    let (x, y) = transform_coord(3, 3, 7, 7);
    assert_eq!(x, 0);
    assert_eq!(y, 0);
}

#[test]
fn transform_coordinates_on_render_canvas() {
    let (x, y) = transform_coord(0, 599, 600, 600);
    assert_eq!(x, -300);
    assert_eq!(y, -299);
}
