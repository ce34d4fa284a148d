use ray_tracing::grid::{pixel_order, MAX_PIXELS};

#[test]
fn pixels_come_row_by_row() {
    assert_eq!(
        pixel_order(3, 2),
        vec![(0, 0), (0, 1), (0, 2), (1, 0), (1, 1), (1, 2)]
    );
}

#[test]
fn empty_image_has_no_pixels() {
    assert!(pixel_order(0, 5).is_empty());
    assert!(pixel_order(5, 0).is_empty());
}

#[test]
fn position_of_a_pixel_is_row_times_width_plus_column() {
    let width = 720;
    let height = 405;
    assert!(width * height <= MAX_PIXELS);
    let order = pixel_order(width, height);
    assert_eq!(order.len(), width * height);
    assert_eq!(order[28 * width + 437], (28, 437));
    assert_eq!(order[width * height - 1], (404, 719));
}
