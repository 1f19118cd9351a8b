use std::sync::Arc;

use genetic_painter::generator::{
    check_config, distance_squared, finish, generate, length_in_bounds, place, seed_population,
    FinishDraw, GenerateError, LengthBound, Placement, PlacementDraw, Strategy,
    ATTEMPTS_PER_STROKE,
};
use genetic_painter::painting::Painting;
use genetic_painter::raster::Raster;
use genetic_painter::stroke::point_2d::Point2D;
use genetic_painter::stroke::Rgb8;

fn black(width: u32, height: u32) -> Arc<Raster> {
    Arc::new(Raster::filled(width, height, Rgb8::new(0, 0, 0)).unwrap())
}

fn gradient(width: u32, height: u32) -> Arc<Raster> {
    let mut bytes = Vec::new();
    for y in 0..height {
        for x in 0..width {
            bytes.push(x as u8);
            bytes.push(y as u8);
            bytes.push((x + y) as u8);
        }
    }
    Arc::new(Raster::from_raw(width, height, bytes).unwrap())
}

fn squared(a: Point2D, b: Point2D) -> u128 {
    let dx = (a.x as i64 - b.x as i64).unsigned_abs() as u128;
    let dy = (a.y as i64 - b.y as i64).unsigned_abs() as u128;
    dx * dx + dy * dy
}

#[test]
fn strategies_have_their_length_tests() {
    assert_eq!(Strategy::Random.bound(), LengthBound::ExclusiveLengthBound);
    assert_eq!(Strategy::Informed.bound(), LengthBound::InclusiveLengthBound);
}

#[test]
fn distance_is_squared_exactly() {
    assert_eq!(distance_squared(Point2D::new(0, 0), Point2D::new(3, 4)), 25);
    assert_eq!(distance_squared(Point2D::new(3, 4), Point2D::new(0, 0)), 25);
    assert_eq!(distance_squared(Point2D::new(7, 7), Point2D::new(7, 7)), 0);
    assert_eq!(distance_squared(Point2D::new(9, 2), Point2D::new(4, 14)), 169);
    assert_eq!(
        distance_squared(Point2D::new(0, u32::MAX), Point2D::new(u32::MAX, 0)),
        2 * (u32::MAX as u128) * (u32::MAX as u128)
    );
}

#[test]
fn exclusive_bound_refuses_the_bounds_themselves() {
    let a = Point2D::new(0, 0);
    let b = Point2D::new(3, 4);
    let bound = LengthBound::ExclusiveLengthBound;
    assert!(length_in_bounds(bound, a, b, 4, 6));
    assert!(!length_in_bounds(bound, a, b, 5, 6));
    assert!(!length_in_bounds(bound, a, b, 4, 5));
    assert!(!length_in_bounds(bound, a, b, 6, 9));
    assert!(!length_in_bounds(bound, a, b, 1, 4));
    assert!(!length_in_bounds(bound, a, a, 0, 5));
}

#[test]
fn inclusive_bound_accepts_the_bounds_themselves() {
    let a = Point2D::new(0, 0);
    let b = Point2D::new(3, 4);
    let bound = LengthBound::InclusiveLengthBound;
    assert!(length_in_bounds(bound, a, b, 4, 6));
    assert!(length_in_bounds(bound, a, b, 5, 6));
    assert!(length_in_bounds(bound, a, b, 4, 5));
    assert!(length_in_bounds(bound, a, b, 5, 5));
    assert!(!length_in_bounds(bound, a, b, 6, 9));
    assert!(!length_in_bounds(bound, a, b, 1, 4));
    assert!(length_in_bounds(bound, a, a, 0, 5));
}

#[test]
fn length_is_compared_without_rounding() {
    // 2 * 2 + 2 * 2 = 8 lies strictly between 2 * 2 and 3 * 3
    let a = Point2D::new(5, 5);
    let b = Point2D::new(7, 3);
    assert!(length_in_bounds(LengthBound::ExclusiveLengthBound, a, b, 2, 3));
    assert!(!length_in_bounds(LengthBound::ExclusiveLengthBound, a, b, 3, 4));
    assert!(!length_in_bounds(LengthBound::InclusiveLengthBound, a, b, 3, 4));
    assert!(length_in_bounds(
        LengthBound::InclusiveLengthBound,
        Point2D::new(0, 0),
        Point2D::new(u32::MAX, 0),
        u32::MAX,
        u32::MAX
    ));
}

#[test]
fn placement_reduces_each_word_modulo_its_side() {
    let draw = PlacementDraw {
        start_x: 23,
        start_y: 4_000_000_007,
        end_x: 9,
        end_y: 7,
        control_a_x: 10,
        control_a_y: 14,
        control_b_x: u32::MAX,
        control_b_y: 0,
    };
    let placement = place(draw, 10, 7);
    assert_eq!(placement.start, Point2D::new(3, 4_000_000_007 % 7));
    assert_eq!(placement.end, Point2D::new(9, 0));
    assert_eq!(placement.control_a, Point2D::new(0, 0));
    assert_eq!(placement.control_b, Point2D::new(5, 0));
}

#[test]
fn informed_stroke_has_the_colour_under_its_start() {
    let target = gradient(10, 10);
    let placement = Placement {
        start: Point2D::new(3, 8),
        end: Point2D::new(6, 1),
        control_a: Point2D::new(1, 1),
        control_b: Point2D::new(2, 2),
    };
    let draw = FinishDraw { color_x: 5, color_y: 5, width: 17 };
    let stroke = finish(Strategy::Informed, &target, placement, draw, 5);
    assert_eq!(stroke.start, Point2D::new(3, 8));
    assert_eq!(stroke.end, Point2D::new(6, 1));
    assert_eq!(stroke.control_a, Point2D::new(1, 1));
    assert_eq!(stroke.control_b, Point2D::new(2, 2));
    assert_eq!(stroke.color, Rgb8::new(3, 8, 11));
    assert_eq!(stroke.width, 3);
}

#[test]
fn random_stroke_has_the_colour_under_the_drawn_point() {
    let target = gradient(10, 10);
    let placement = Placement {
        start: Point2D::new(3, 8),
        end: Point2D::new(6, 1),
        control_a: Point2D::new(1, 1),
        control_b: Point2D::new(2, 2),
    };
    let draw = FinishDraw { color_x: 25, color_y: 16, width: 9 };
    let stroke = finish(Strategy::Random, &target, placement, draw, 5);
    assert_eq!(stroke.color, Rgb8::new(5, 6, 11));
    assert_eq!(stroke.width, 5);
}

#[test]
fn stroke_width_runs_from_one_to_the_greatest() {
    let target = gradient(4, 4);
    let placement = Placement {
        start: Point2D::new(0, 0),
        end: Point2D::new(1, 1),
        control_a: Point2D::new(0, 0),
        control_b: Point2D::new(0, 0),
    };
    for (word, expected) in [(0u32, 1u32), (1, 2), (2, 3), (3, 1), (u32::MAX, 1)] {
        let draw = FinishDraw { color_x: 0, color_y: 0, width: word };
        assert_eq!(finish(Strategy::Random, &target, placement, draw, 3).width, expected);
    }
    let draw = FinishDraw { color_x: 0, color_y: 0, width: u32::MAX - 1 };
    assert_eq!(
        finish(Strategy::Informed, &target, placement, draw, u32::MAX).width,
        u32::MAX
    );
}

#[test]
fn end_to_end_random_generation_on_black() {
    let target = black(10, 10);
    let painting = Painting::random(target, 5, 3, 1, 20, 5).unwrap();
    assert_eq!(painting.strokes().len(), 5);
    assert_eq!(painting.width(), 10);
    assert_eq!(painting.height(), 10);
    for stroke in painting.strokes() {
        assert!(stroke.start.x < 10 && stroke.start.y < 10);
        assert!(stroke.end.x < 10 && stroke.end.y < 10);
        assert!(stroke.control_a.x < 10 && stroke.control_a.y < 10);
        assert!(stroke.control_b.x < 10 && stroke.control_b.y < 10);
        assert!(1 <= stroke.width && stroke.width <= 3);
        assert_eq!(stroke.color, Rgb8::new(0, 0, 0));
        let d = squared(stroke.start, stroke.end);
        assert!(1 < d && d < 400);
    }
    let rendered = painting.render_strokes();
    assert_eq!((rendered.width(), rendered.height()), (10, 10));
    let fitness = painting.fitness();
    assert!((0..=76500).contains(&fitness));
}

#[test]
fn informed_generation_takes_colours_from_the_start() {
    let target = gradient(12, 9);
    let painting = Painting::informed_random(target.clone(), 6, 4, 2, 5).unwrap();
    assert_eq!(painting.strokes().len(), 6);
    assert_eq!(painting.width(), 12);
    assert_eq!(painting.height(), 9);
    assert!(Arc::ptr_eq(painting.target(), &target));
    for stroke in painting.strokes() {
        assert!(stroke.start.x < 12 && stroke.start.y < 9);
        assert!(stroke.end.x < 12 && stroke.end.y < 9);
        assert!(1 <= stroke.width && stroke.width <= 4);
        assert_eq!(stroke.color, target.get_pixel(stroke.start.x, stroke.start.y));
        let d = squared(stroke.start, stroke.end);
        assert!(4 <= d && d <= 25);
    }
}

#[test]
fn random_generation_keeps_lengths_strictly_inside() {
    let target = gradient(8, 8);
    for _ in 0..20 {
        let painting = Painting::random(target.clone(), 16, 2, 2, 4, 0).unwrap();
        for stroke in painting.strokes() {
            let d = squared(stroke.start, stroke.end);
            assert!(4 < d && d < 16);
        }
    }
}

#[test]
fn random_generation_takes_colours_from_the_target() {
    let target = gradient(8, 8);
    let painting = Painting::random(target.clone(), 8, 2, 1, 9, 0).unwrap();
    for stroke in painting.strokes() {
        let c = stroke.color;
        assert!(c.red < 8 && c.green < 8 && c.blue == c.red + c.green);
    }
}

#[test]
fn stroke_count_is_the_number_of_full_buckets() {
    let target = black(10, 10);
    for (asked, made) in [
        (1u32, 1usize),
        (5, 5),
        (7, 7),
        (30, 33),
        (34, 50),
        (50, 50),
        (51, 100),
        (100, 100),
    ] {
        let painting = generate(target.clone(), Strategy::Informed, asked, 2, 1, 20).unwrap();
        assert_eq!(painting.strokes().len(), made);
        assert!(painting.strokes().len() >= asked as usize);
    }
}

#[test]
fn more_strokes_than_pixels_gives_one_stroke_a_pixel() {
    let target = black(4, 3);
    for asked in [13u32, 100, u32::MAX] {
        let painting = generate(target.clone(), Strategy::Random, asked, 2, 0, 20).unwrap();
        assert_eq!(painting.strokes().len(), 12);
    }
}

#[test]
fn empty_length_range_is_refused() {
    let target = black(10, 10);
    assert_eq!(
        Painting::random(target.clone(), 5, 3, 20, 20, 0).err(),
        Some(GenerateError::EmptyLengthRange)
    );
    assert_eq!(
        Painting::informed_random(target.clone(), 5, 3, 21, 20).err(),
        Some(GenerateError::EmptyLengthRange)
    );
    // the range is looked at first
    assert_eq!(
        generate(black(0, 0), Strategy::Random, 0, 0, 3, 3).err(),
        Some(GenerateError::EmptyLengthRange)
    );
}

#[test]
fn zero_strokes_are_refused() {
    assert_eq!(
        Painting::random(black(10, 10), 0, 3, 1, 20, 0).err(),
        Some(GenerateError::NoStrokes)
    );
    assert_eq!(
        generate(black(0, 0), Strategy::Informed, 0, 0, 1, 2).err(),
        Some(GenerateError::NoStrokes)
    );
}

#[test]
fn zero_width_is_refused() {
    assert_eq!(
        Painting::informed_random(black(10, 10), 5, 0, 1, 20).err(),
        Some(GenerateError::ZeroWidth)
    );
    assert_eq!(
        generate(black(0, 0), Strategy::Informed, 1, 0, 1, 2).err(),
        Some(GenerateError::ZeroWidth)
    );
}

#[test]
fn empty_image_is_refused() {
    assert_eq!(
        Painting::random(black(0, 10), 5, 3, 1, 20, 0).err(),
        Some(GenerateError::CanvasSize)
    );
    assert_eq!(
        Painting::informed_random(black(10, 0), 5, 3, 1, 20).err(),
        Some(GenerateError::CanvasSize)
    );
}

#[test]
fn generation_gives_up_where_no_length_is_allowed() {
    // on a single pixel every stroke has length zero
    assert!(ATTEMPTS_PER_STROKE >= 1);
    assert_eq!(
        Painting::random(black(1, 1), 1, 3, 1, 20, 0).err(),
        Some(GenerateError::Exhausted)
    );
}

#[test]
fn single_pixel_takes_a_stroke_of_length_zero_where_allowed() {
    let painting = Painting::informed_random(black(1, 1), 1, 3, 0, 20).unwrap();
    assert_eq!(painting.strokes().len(), 1);
    assert_eq!(painting.strokes()[0].start, Point2D::new(0, 0));
    assert_eq!(painting.strokes()[0].end, Point2D::new(0, 0));
}

#[test]
fn requests_are_looked_over_in_a_fixed_order() {
    assert_eq!(check_config(10, 10, 5, 3, 1, 20), None);
    assert_eq!(check_config(1, 1, 1, 1, 0, 1), None);
    assert_eq!(check_config(536_870_912, 536_870_912, 1, 1, 0, 1), None);
    assert_eq!(check_config(10, 10, 5, 3, 20, 20), Some(GenerateError::EmptyLengthRange));
    assert_eq!(check_config(10, 10, 5, 3, 21, 20), Some(GenerateError::EmptyLengthRange));
    assert_eq!(check_config(0, 0, 0, 0, 5, 5), Some(GenerateError::EmptyLengthRange));
    assert_eq!(check_config(0, 0, 0, 0, 1, 20), Some(GenerateError::NoStrokes));
    assert_eq!(check_config(0, 0, 5, 0, 1, 20), Some(GenerateError::ZeroWidth));
    assert_eq!(check_config(0, 10, 5, 3, 1, 20), Some(GenerateError::CanvasSize));
    assert_eq!(check_config(10, 0, 5, 3, 1, 20), Some(GenerateError::CanvasSize));
    assert_eq!(check_config(536_870_913, 10, 5, 3, 1, 20), Some(GenerateError::CanvasSize));
    assert_eq!(check_config(10, 536_870_913, 5, 3, 1, 20), Some(GenerateError::CanvasSize));
}

#[test]
fn population_has_the_size_asked_for() {
    let target = gradient(10, 10);
    let paintings =
        seed_population(target.clone(), Strategy::Informed, 7, 5, 3, 1, 20).unwrap();
    assert_eq!(paintings.len(), 7);
    for painting in &paintings {
        assert_eq!(painting.strokes().len(), 5);
        assert!(Arc::ptr_eq(painting.target(), &target));
        for stroke in painting.strokes() {
            assert_eq!(stroke.color, target.get_pixel(stroke.start.x, stroke.start.y));
        }
    }
    // paintings are generated independently of one another
    assert!(paintings.iter().any(|p| p.strokes() != paintings[0].strokes()));
    let none = seed_population(target, Strategy::Random, 0, 5, 3, 1, 20).unwrap();
    assert!(none.is_empty());
}

#[test]
fn population_is_refused_like_a_single_painting() {
    assert_eq!(
        seed_population(black(10, 10), Strategy::Random, 3, 5, 3, 20, 1).err(),
        Some(GenerateError::EmptyLengthRange)
    );
    assert_eq!(
        seed_population(black(10, 10), Strategy::Random, 0, 0, 3, 1, 20).err(),
        Some(GenerateError::NoStrokes)
    );
    assert_eq!(
        seed_population(black(1, 1), Strategy::Random, 2, 1, 3, 1, 20).err(),
        Some(GenerateError::Exhausted)
    );
}
