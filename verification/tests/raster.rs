use genetic_painter::raster::Raster;
use genetic_painter::stroke::point_2d::Point2D;
use genetic_painter::stroke::{Rgb8, Stroke};

#[test]
fn filled_image_repeats_the_colour() {
    let image = Raster::filled(2, 3, Rgb8::new(1, 2, 3)).unwrap();
    assert_eq!(image.width(), 2);
    assert_eq!(image.height(), 3);
    assert_eq!(
        *image.as_raw(),
        vec![1, 2, 3, 1, 2, 3, 1, 2, 3, 1, 2, 3, 1, 2, 3, 1, 2, 3]
    );
}

#[test]
fn filled_image_may_be_empty() {
    let image = Raster::filled(0, 7, Rgb8::new(9, 9, 9)).unwrap();
    assert_eq!(image.width(), 0);
    assert_eq!(image.height(), 7);
    assert!(image.into_raw().is_empty());
}

#[test]
fn from_raw_takes_exactly_three_bytes_a_pixel() {
    assert!(Raster::from_raw(2, 2, vec![0; 12]).is_some());
    assert!(Raster::from_raw(2, 2, vec![0; 11]).is_none());
    assert!(Raster::from_raw(2, 2, vec![0; 13]).is_none());
    assert!(Raster::from_raw(0, 0, vec![]).is_some());
    assert!(Raster::from_raw(u32::MAX, u32::MAX, vec![0; 3]).is_none());
}

#[test]
fn from_raw_keeps_the_bytes() {
    let bytes: Vec<u8> = (0..24).collect();
    let image = Raster::from_raw(4, 2, bytes.clone()).unwrap();
    assert_eq!(*image.as_raw(), bytes);
    assert_eq!(image.into_raw(), bytes);
}

#[test]
fn get_pixel_reads_rows_one_after_another() {
    let bytes: Vec<u8> = (0..24).collect();
    let image = Raster::from_raw(4, 2, bytes).unwrap();
    assert_eq!(image.get_pixel(0, 0), Rgb8::new(0, 1, 2));
    assert_eq!(image.get_pixel(3, 0), Rgb8::new(9, 10, 11));
    assert_eq!(image.get_pixel(0, 1), Rgb8::new(12, 13, 14));
    assert_eq!(image.get_pixel(2, 1), Rgb8::new(18, 19, 20));
}

#[test]
fn point_wraps_modulo_the_canvas() {
    assert_eq!(Point2D::new(13, 7).wrapped(10, 5), Point2D::new(3, 2));
    assert_eq!(Point2D::new(9, 4).wrapped(10, 5), Point2D::new(9, 4));
    assert_eq!(Point2D::new(10, 5).wrapped(10, 5), Point2D::new(0, 0));
    assert_eq!(
        Point2D::new(u32::MAX, u32::MAX).wrapped(1, 1),
        Point2D::new(0, 0)
    );
}

#[test]
fn control_point_is_the_origin() {
    let start = Point2D::new(4, 5);
    let end = Point2D::new(8, 1);
    assert_eq!(start.get_control(&end), Point2D::new(0, 0));
    assert_eq!(end.get_control(&start), Point2D::new(0, 0));
}

#[test]
fn default_point_is_the_origin() {
    assert_eq!(Point2D::default(), Point2D { x: 0, y: 0 });
}

#[test]
fn stroke_wraps_all_four_points() {
    let stroke = Stroke::new(
        Point2D::new(11, 12),
        Point2D::new(3, 4),
        Point2D::new(20, 0),
        Point2D::new(0, 27),
        Rgb8::new(5, 6, 7),
        4,
    );
    let wrapped = stroke.wrapped(10, 9);
    assert_eq!(wrapped.start, Point2D::new(1, 3));
    assert_eq!(wrapped.end, Point2D::new(3, 4));
    assert_eq!(wrapped.control_a, Point2D::new(0, 0));
    assert_eq!(wrapped.control_b, Point2D::new(0, 0));
    assert_eq!(wrapped.color, Rgb8::new(5, 6, 7));
    assert_eq!(wrapped.width, 4);
}
