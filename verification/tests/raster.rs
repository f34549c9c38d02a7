use rview::raster::pixel_span;

#[test]
fn span_is_clamped_to_grid() {
    assert_eq!(pixel_span(-3, 12, 10), (0, 9));
    assert_eq!(pixel_span(2, 5, 10), (2, 5));
    assert_eq!(pixel_span(0, 9, 10), (0, 9));
}

#[test]
fn span_outside_grid_is_empty() {
    let (a, b) = pixel_span(12, 15, 10);
    assert!(a > b);
    let (a, b) = pixel_span(-5, -2, 10);
    assert!(a > b);
    let (a, b) = pixel_span(0, 3, 0);
    assert_eq!((a, b), (0, -1));
}
