use std::sync::Arc;
use vstd::prelude::*;

use crate::chance::random_u32;
use crate::painting::{share, usable_canvas, Painting, MAX_SIDE};
use crate::raster::{color_at, pixel_offset, Raster};
use crate::stroke::point_2d::Point2D;
use crate::stroke::{Rgb8, Stroke};

verus! {

/// How many placements are tried for one stroke before generation gives up.
pub const ATTEMPTS_PER_STROKE: u32 = 1_000_000;

/// How a generator picks the colour of a stroke and tests its length.
#[derive(Clone, Copy, Debug, PartialEq, Eq, Structural)]
pub enum Strategy {
    /// The colour is that of the target at a point drawn on its own; the
    /// length must lie strictly between the two bounds.
    Random,
    /// The colour is that of the target where the stroke starts; the length
    /// may also equal either bound.
    Informed,
}

/// Whether a length equal to a bound passes the test.
#[derive(Clone, Copy, Debug, PartialEq, Eq, Structural)]
pub enum LengthBound {
    /// Only lengths strictly between the bounds pass.
    ExclusiveLengthBound,
    /// Lengths equal to a bound pass too.
    InclusiveLengthBound,
}

/// Why no painting was generated.
#[derive(Clone, Copy, Debug, PartialEq, Eq, Structural)]
pub enum GenerateError {
    /// The shortest allowed length is not below the longest, so no stroke
    /// could ever pass.
    EmptyLengthRange,
    /// Zero strokes were asked for, so the pixels cannot be shared out.
    NoStrokes,
    /// The greatest stroke width is zero.
    ZeroWidth,
    /// The target image has no pixels, or a side longer than a canvas may
    /// have.
    CanvasSize,
    /// For some stroke, none of the placements tried had an allowed length.
    Exhausted,
}

/// The random words that place one stroke: two for each of its four points.
#[derive(Clone, Copy, Debug, PartialEq, Eq, Structural)]
pub struct PlacementDraw {
    pub start_x: u32,
    pub start_y: u32,
    pub end_x: u32,
    pub end_y: u32,
    pub control_a_x: u32,
    pub control_a_y: u32,
    pub control_b_x: u32,
    pub control_b_y: u32,
}

/// The random words that finish a placed stroke: a point of the target to take
/// the colour from, and a width.
#[derive(Clone, Copy, Debug, PartialEq, Eq, Structural)]
pub struct FinishDraw {
    pub color_x: u32,
    pub color_y: u32,
    pub width: u32,
}

/// The four points of a stroke.
#[derive(Clone, Copy, Debug, PartialEq, Eq, Structural)]
pub struct Placement {
    pub start: Point2D,
    pub end: Point2D,
    pub control_a: Point2D,
    pub control_b: Point2D,
}

impl Strategy {
    /// The length test that goes with the strategy.
    pub open spec fn bound_spec(self) -> LengthBound {
        match self {
            Strategy::Random => LengthBound::ExclusiveLengthBound,
            Strategy::Informed => LengthBound::InclusiveLengthBound,
        }
    }

    /// The length test that goes with the strategy.
    #[verifier::when_used_as_spec(bound_spec)]
    pub fn bound(self) -> (bound: LengthBound)
        ensures
            bound == self.bound_spec(),
    {
        match self {
            Strategy::Random => LengthBound::ExclusiveLengthBound,
            Strategy::Informed => LengthBound::InclusiveLengthBound,
        }
    }
}

/// The square of the Euclidean distance between two points.
pub open spec fn distance_squared_spec(a: Point2D, b: Point2D) -> int {
    (a.x - b.x) * (a.x - b.x) + (a.y - b.y) * (a.y - b.y)
}

/// Whether a segment whose squared length is `squared` is at least
/// `min_length` and at most `max_length` long, the bounds themselves counted
/// as `bound` says. Lengths are compared by their squares, which keeps the
/// test exact.
pub open spec fn length_allowed(
    bound: LengthBound,
    squared: int,
    min_length: int,
    max_length: int,
) -> bool {
    match bound {
        LengthBound::ExclusiveLengthBound => min_length * min_length < squared < max_length
            * max_length,
        LengthBound::InclusiveLengthBound => min_length * min_length <= squared <= max_length
            * max_length,
    }
}

/// The pixels that make up one bucket when `pixels` pixels are shared out
/// among `strokes` strokes: their quotient, and one where there are more
/// strokes than pixels.
pub open spec fn bucket_size(pixels: int, strokes: int) -> int {
    if pixels / strokes == 0 {
        1
    } else {
        pixels / strokes
    }
}

/// The number of strokes generated for an image of `pixels` pixels when
/// `strokes` strokes are asked for: one for each full bucket.
pub open spec fn stroke_total(pixels: int, strokes: int) -> int {
    pixels / bucket_size(pixels, strokes)
}

/// The points that the words of `draw` place on a canvas of `width` by
/// `height` pixels: each word is reduced modulo the matching side.
pub open spec fn placed(draw: PlacementDraw, width: int, height: int) -> Placement {
    Placement {
        start: (Point2D { x: draw.start_x, y: draw.start_y }).wrapped_spec(width, height),
        end: (Point2D { x: draw.end_x, y: draw.end_y }).wrapped_spec(width, height),
        control_a: (Point2D { x: draw.control_a_x, y: draw.control_a_y }).wrapped_spec(
            width,
            height,
        ),
        control_b: (Point2D { x: draw.control_b_x, y: draw.control_b_y }).wrapped_spec(
            width,
            height,
        ),
    }
}

/// The stroke that a placement becomes on the target `target`, an image
/// `width` by `height` pixels large: its colour is the target's at the
/// stroke's start (informed) or at the point that `draw` names (random), its
/// width is between one and `max_width`.
pub open spec fn finished(
    strategy: Strategy,
    target: Seq<u8>,
    width: int,
    height: int,
    placement: Placement,
    draw: FinishDraw,
    max_width: int,
) -> Stroke {
    let from = match strategy {
        Strategy::Random => (Point2D { x: draw.color_x, y: draw.color_y }).wrapped_spec(
            width,
            height,
        ),
        Strategy::Informed => placement.start,
    };
    Stroke {
        start: placement.start,
        end: placement.end,
        control_a: placement.control_a,
        control_b: placement.control_b,
        color: color_at(target, pixel_offset(width, from.x as int, from.y as int)),
        width: (draw.width as int % max_width + 1) as u32,
    }
}

/// The square of the Euclidean distance between two points.
pub fn distance_squared(a: Point2D, b: Point2D) -> (squared: u128)
    ensures
        squared == distance_squared_spec(a, b),
{
    let dx: u128 = if a.x >= b.x {
        (a.x - b.x) as u128
    } else {
        (b.x - a.x) as u128
    };
    let dy: u128 = if a.y >= b.y {
        (a.y - b.y) as u128
    } else {
        (b.y - a.y) as u128
    };
    assert(dx * dx == (a.x - b.x) * (a.x - b.x) && dx * dx <= 0xFFFF_FFFF * 0xFFFF_FFFF)
        by (nonlinear_arith)
        requires
            dx == a.x - b.x || dx == b.x - a.x,
            0 <= dx <= 0xFFFF_FFFF,
    ;
    assert(dy * dy == (a.y - b.y) * (a.y - b.y) && dy * dy <= 0xFFFF_FFFF * 0xFFFF_FFFF)
        by (nonlinear_arith)
        requires
            dy == a.y - b.y || dy == b.y - a.y,
            0 <= dy <= 0xFFFF_FFFF,
    ;
    dx * dx + dy * dy
}

/// Whether the segment from `start` to `end` has an allowed length.
pub fn length_in_bounds(
    bound: LengthBound,
    start: Point2D,
    end: Point2D,
    min_length: u32,
    max_length: u32,
) -> (allowed: bool)
    ensures
        allowed == length_allowed(
            bound,
            distance_squared_spec(start, end),
            min_length as int,
            max_length as int,
        ),
{
    let squared: u128 = distance_squared(start, end);
    assert(min_length * min_length <= 0xFFFF_FFFF * 0xFFFF_FFFF) by (nonlinear_arith)
        requires
            0 <= min_length <= 0xFFFF_FFFF,
    ;
    assert(max_length * max_length <= 0xFFFF_FFFF * 0xFFFF_FFFF) by (nonlinear_arith)
        requires
            0 <= max_length <= 0xFFFF_FFFF,
    ;
    let low: u128 = min_length as u128 * min_length as u128;
    let high: u128 = max_length as u128 * max_length as u128;
    match bound {
        LengthBound::ExclusiveLengthBound => low < squared && squared < high,
        LengthBound::InclusiveLengthBound => low <= squared && squared <= high,
    }
}

/// Places the four points of a stroke on a canvas of `width` by `height`
/// pixels.
pub fn place(draw: PlacementDraw, width: u32, height: u32) -> (placement: Placement)
    requires
        width > 0,
        height > 0,
    ensures
        placement == placed(draw, width as int, height as int),
        placement.start.in_canvas(width as int, height as int),
        placement.end.in_canvas(width as int, height as int),
        placement.control_a.in_canvas(width as int, height as int),
        placement.control_b.in_canvas(width as int, height as int),
{
    Placement {
        start: Point2D::new(draw.start_x, draw.start_y).wrapped(width, height),
        end: Point2D::new(draw.end_x, draw.end_y).wrapped(width, height),
        control_a: Point2D::new(draw.control_a_x, draw.control_a_y).wrapped(width, height),
        control_b: Point2D::new(draw.control_b_x, draw.control_b_y).wrapped(width, height),
    }
}

/// Gives a placed stroke its colour, taken from `target`, and its width.
pub fn finish(
    strategy: Strategy,
    target: &Raster,
    placement: Placement,
    draw: FinishDraw,
    max_width: u32,
) -> (stroke: Stroke)
    requires
        target.spec_width() > 0,
        target.spec_height() > 0,
        max_width > 0,
        placement.start.in_canvas(target.spec_width() as int, target.spec_height() as int),
    ensures
        stroke == finished(
            strategy,
            target@,
            target.spec_width() as int,
            target.spec_height() as int,
            placement,
            draw,
            max_width as int,
        ),
        1 <= stroke.width <= max_width,
{
    let from = match strategy {
        Strategy::Random => Point2D::new(draw.color_x, draw.color_y).wrapped(
            target.width(),
            target.height(),
        ),
        Strategy::Informed => placement.start,
    };
    Stroke {
        start: placement.start,
        end: placement.end,
        control_a: placement.control_a,
        control_b: placement.control_b,
        color: target.get_pixel(from.x, from.y),
        width: draw.width % max_width + 1,
    }
}

/// What is wrong with a request to generate a painting for an image of
/// `width` by `height` pixels, if anything: the first of an empty range of
/// lengths, no strokes, a greatest width of zero, an unusable canvas.
pub open spec fn config_fault(
    width: int,
    height: int,
    number_of_strokes: int,
    max_width: int,
    min_length: int,
    max_length: int,
) -> Option<GenerateError> {
    if min_length >= max_length {
        Some(GenerateError::EmptyLengthRange)
    } else if number_of_strokes == 0 {
        Some(GenerateError::NoStrokes)
    } else if max_width == 0 {
        Some(GenerateError::ZeroWidth)
    } else if !usable_canvas(width, height) {
        Some(GenerateError::CanvasSize)
    } else {
        None
    }
}

/// Whether `stroke` is what some random words give for the target `target`:
/// a placement of allowed length, finished as the strategy says.
pub open spec fn is_generated(
    strategy: Strategy,
    target: Seq<u8>,
    width: int,
    height: int,
    max_width: int,
    min_length: int,
    max_length: int,
    stroke: Stroke,
) -> bool {
    exists|place: PlacementDraw, finish: FinishDraw|
        {
            &&& length_allowed(
                strategy.bound_spec(),
                distance_squared_spec(
                    placed(place, width, height).start,
                    placed(place, width, height).end,
                ),
                min_length,
                max_length,
            )
            &&& stroke == #[trigger] finished(
                strategy,
                target,
                width,
                height,
                placed(place, width, height),
                finish,
                max_width,
            )
        }
}

/// Whatever words were drawn, a generated stroke fits the canvas, is between
/// one and `max_width` pixels wide, has an allowed length, and has a colour
/// of the target: the one where the stroke starts under the informed
/// strategy, the one at some point of the canvas under the random one.
pub proof fn lemma_generated_stroke(
    strategy: Strategy,
    target: Seq<u8>,
    width: int,
    height: int,
    max_width: int,
    min_length: int,
    max_length: int,
    stroke: Stroke,
)
    requires
        width > 0,
        height > 0,
        0 < max_width <= u32::MAX,
        is_generated(strategy, target, width, height, max_width, min_length, max_length, stroke),
    ensures
        stroke.fits(width, height),
        1 <= stroke.width <= max_width,
        length_allowed(
            strategy.bound_spec(),
            distance_squared_spec(stroke.start, stroke.end),
            min_length,
            max_length,
        ),
        strategy == Strategy::Informed ==> stroke.color == color_at(
            target,
            pixel_offset(width, stroke.start.x as int, stroke.start.y as int),
        ),
        exists|x: int, y: int|
            0 <= x < width && 0 <= y < height && stroke.color == color_at(
                target,
                #[trigger] pixel_offset(width, x, y),
            ),
{
    let (place, finish) = choose|place: PlacementDraw, finish: FinishDraw|
        {
            &&& length_allowed(
                strategy.bound_spec(),
                distance_squared_spec(
                    placed(place, width, height).start,
                    placed(place, width, height).end,
                ),
                min_length,
                max_length,
            )
            &&& stroke == #[trigger] finished(
                strategy,
                target,
                width,
                height,
                placed(place, width, height),
                finish,
                max_width,
            )
        };
    let from = match strategy {
        Strategy::Random => (Point2D { x: finish.color_x, y: finish.color_y }).wrapped_spec(
            width,
            height,
        ),
        Strategy::Informed => stroke.start,
    };
    assert(stroke.color == color_at(target, pixel_offset(width, from.x as int, from.y as int)));
}

/// An image of `pixels` pixels, asked for `strokes` strokes with at least one
/// pixel for each, gets as many strokes as it has full buckets of
/// `pixels / strokes` pixels: at least as many as were asked for, so at least
/// one, and no more than it has pixels.
pub proof fn lemma_stroke_total(pixels: int, strokes: int)
    requires
        1 <= strokes <= pixels,
    ensures
        bucket_size(pixels, strokes) == pixels / strokes,
        stroke_total(pixels, strokes) == pixels / (pixels / strokes),
        strokes <= stroke_total(pixels, strokes) <= pixels,
        stroke_total(pixels, strokes) > 0,
{
    let bucket = pixels / strokes;
    assert(bucket >= 1 && bucket * strokes <= pixels) by (nonlinear_arith)
        requires
            bucket == pixels / strokes,
            1 <= strokes <= pixels,
    ;
    assert(strokes <= pixels / bucket <= pixels) by (nonlinear_arith)
        requires
            bucket >= 1,
            bucket * strokes <= pixels,
            strokes >= 1,
    ;
}

/// Where more strokes are asked for than the image has pixels, every pixel
/// gets a stroke of its own and no more are made.
pub proof fn lemma_stroke_total_crowded(pixels: int, strokes: int)
    requires
        0 <= pixels < strokes,
    ensures
        stroke_total(pixels, strokes) == pixels,
{
    assert(pixels / strokes == 0) by (nonlinear_arith)
        requires
            0 <= pixels < strokes,
    ;
}

/// Whether every segment between two points of a canvas of `width` by
/// `height` pixels has an allowed length.
pub open spec fn every_length_allowed(
    bound: LengthBound,
    width: int,
    height: int,
    min_length: int,
    max_length: int,
) -> bool {
    forall|a: Point2D, b: Point2D|
        a.in_canvas(width, height) && b.in_canvas(width, height) ==> length_allowed(
            bound,
            #[trigger] distance_squared_spec(a, b),
            min_length,
            max_length,
        )
}

/// Whether no segment between two points of a canvas of `width` by `height`
/// pixels has an allowed length.
pub open spec fn no_length_allowed(
    bound: LengthBound,
    width: int,
    height: int,
    min_length: int,
    max_length: int,
) -> bool {
    forall|a: Point2D, b: Point2D|
        a.in_canvas(width, height) && b.in_canvas(width, height) ==> !length_allowed(
            bound,
            #[trigger] distance_squared_spec(a, b),
            min_length,
            max_length,
        )
}

/// Whether every placement of `draws` on a canvas of `width` by `height`
/// pixels has a length that is not allowed.
pub open spec fn all_refused(
    bound: LengthBound,
    draws: Seq<PlacementDraw>,
    width: int,
    height: int,
    min_length: int,
    max_length: int,
) -> bool {
    forall|i: int|
        0 <= i < draws.len() ==> !length_allowed(
            bound,
            distance_squared_spec(
                placed(#[trigger] draws[i], width, height).start,
                placed(draws[i], width, height).end,
            ),
            min_length,
            max_length,
        )
}

/// Whether there are `ATTEMPTS_PER_STROKE` placements in a row that all have
/// a length that is not allowed: what has been drawn for a stroke when
/// generation gives up.
pub open spec fn gave_up(
    bound: LengthBound,
    width: int,
    height: int,
    min_length: int,
    max_length: int,
) -> bool {
    exists|draws: Seq<PlacementDraw>|
        draws.len() == ATTEMPTS_PER_STROKE && #[trigger] all_refused(
            bound,
            draws,
            width,
            height,
            min_length,
            max_length,
        )
}

/// What generating a painting for the image `image` gives, whatever the
/// random words are.
///
/// A request that `config_fault` faults is refused with that fault. Any other
/// request gives a painting or `Exhausted`: a painting for sure where every
/// length on the canvas is allowed, `Exhausted` for sure where none is, and
/// `Exhausted` only after `ATTEMPTS_PER_STROKE` placements in a row were
/// refused for one stroke. The painting has the canvas and target `image`, one
/// stroke for each full bucket of pixels, and only strokes that `is_generated`
/// admits.
pub open spec fn generation_outcome(
    image: &Raster,
    strategy: Strategy,
    number_of_strokes: u32,
    max_width: u32,
    min_length: u32,
    max_length: u32,
    result: Result<Painting, GenerateError>,
) -> bool {
    let width = image.spec_width() as int;
    let height = image.spec_height() as int;
    let fault = config_fault(
        width,
        height,
        number_of_strokes as int,
        max_width as int,
        min_length as int,
        max_length as int,
    );
    match result {
        Ok(painting) => {
            &&& fault is None
            &&& !no_length_allowed(
                strategy.bound_spec(),
                width,
                height,
                min_length as int,
                max_length as int,
            )
            &&& painting@.valid()
            &&& painting@.width == width
            &&& painting@.height == height
            &&& painting@.target == image@
            &&& painting@.strokes.len() == stroke_total(width * height, number_of_strokes as int)
            &&& forall|i: int|
                0 <= i < painting@.strokes.len() ==> is_generated(
                    strategy,
                    image@,
                    width,
                    height,
                    max_width as int,
                    min_length as int,
                    max_length as int,
                    #[trigger] painting@.strokes[i],
                )
        },
        Err(error) => {
            ||| fault == Some(error)
            ||| {
                &&& fault is None
                &&& error == GenerateError::Exhausted
                &&& !every_length_allowed(
                    strategy.bound_spec(),
                    width,
                    height,
                    min_length as int,
                    max_length as int,
                )
                &&& gave_up(
                    strategy.bound_spec(),
                    width,
                    height,
                    min_length as int,
                    max_length as int,
                )
            }
        },
    }
}

/// Looks a request over before anything is drawn: what `config_fault` finds
/// wrong with it, if anything.
pub fn check_config(
    width: u32,
    height: u32,
    number_of_strokes: u32,
    max_width: u32,
    min_length: u32,
    max_length: u32,
) -> (fault: Option<GenerateError>)
    ensures
        fault == config_fault(
            width as int,
            height as int,
            number_of_strokes as int,
            max_width as int,
            min_length as int,
            max_length as int,
        ),
{
    if min_length >= max_length {
        Some(GenerateError::EmptyLengthRange)
    } else if number_of_strokes == 0 {
        Some(GenerateError::NoStrokes)
    } else if max_width == 0 {
        Some(GenerateError::ZeroWidth)
    } else if width == 0 || height == 0 || width > MAX_SIDE || height > MAX_SIDE {
        Some(GenerateError::CanvasSize)
    } else {
        None
    }
}

/// Draws placements until one has an allowed length and finishes it, or
/// gives up after `ATTEMPTS_PER_STROKE` placements.
fn sample_stroke(
    strategy: Strategy,
    target: &Raster,
    max_width: u32,
    min_length: u32,
    max_length: u32,
) -> (stroke: Option<Stroke>)
    requires
        target.spec_width() > 0,
        target.spec_height() > 0,
        max_width > 0,
    ensures
        match stroke {
            Some(s) => {
                &&& is_generated(
                    strategy,
                    target@,
                    target.spec_width() as int,
                    target.spec_height() as int,
                    max_width as int,
                    min_length as int,
                    max_length as int,
                    s,
                )
                &&& s.fits(target.spec_width() as int, target.spec_height() as int)
                &&& !no_length_allowed(
                    strategy.bound_spec(),
                    target.spec_width() as int,
                    target.spec_height() as int,
                    min_length as int,
                    max_length as int,
                )
            },
            None => {
                &&& !every_length_allowed(
                    strategy.bound_spec(),
                    target.spec_width() as int,
                    target.spec_height() as int,
                    min_length as int,
                    max_length as int,
                )
                &&& gave_up(
                    strategy.bound_spec(),
                    target.spec_width() as int,
                    target.spec_height() as int,
                    min_length as int,
                    max_length as int,
                )
            },
        },
{
    let width = target.width();
    let height = target.height();
    let ghost mut refused: Option<(Point2D, Point2D)> = None;
    let ghost mut tried: Seq<PlacementDraw> = Seq::empty();
    let mut attempts: u32 = 0;
    while attempts < ATTEMPTS_PER_STROKE
        invariant
            width == target.spec_width(),
            height == target.spec_height(),
            width > 0,
            height > 0,
            max_width > 0,
            attempts > 0 ==> refused is Some,
            attempts <= ATTEMPTS_PER_STROKE,
            tried.len() == attempts,
            all_refused(
                strategy.bound_spec(),
                tried,
                width as int,
                height as int,
                min_length as int,
                max_length as int,
            ),
            refused matches Some((a, b)) ==> {
                &&& a.in_canvas(width as int, height as int)
                &&& b.in_canvas(width as int, height as int)
                &&& !length_allowed(
                    strategy.bound_spec(),
                    distance_squared_spec(a, b),
                    min_length as int,
                    max_length as int,
                )
            },
        decreases ATTEMPTS_PER_STROKE - attempts,
    {
        let draw = PlacementDraw {
            start_x: random_u32(),
            start_y: random_u32(),
            end_x: random_u32(),
            end_y: random_u32(),
            control_a_x: random_u32(),
            control_a_y: random_u32(),
            control_b_x: random_u32(),
            control_b_y: random_u32(),
        };
        let placement = place(draw, width, height);
        if length_in_bounds(strategy.bound(), placement.start, placement.end, min_length, max_length) {
            let last = FinishDraw {
                color_x: random_u32(),
                color_y: random_u32(),
                width: random_u32(),
            };
            let stroke = finish(strategy, target, placement, last, max_width);
            return Some(stroke);
        }
        proof {
            refused = Some((placement.start, placement.end));
            tried = tried.push(draw);
        }
        attempts = attempts + 1;
    }
    None
}

/// Generates a painting for the image `image` by the given strategy.
///
/// The pixels of the image are shared out in buckets of
/// `bucket_size(pixels, number_of_strokes)` pixels, and each full bucket gets
/// one stroke. A stroke is placed by drawing its four points at random until
/// its length is allowed; its width is drawn between one and `max_width`.
///
/// A request that `config_fault` faults is refused before anything is drawn.
/// `Exhausted` is returned where, for some stroke, none of
/// `ATTEMPTS_PER_STROKE` placements had an allowed length.
pub fn generate(
    image: Arc<Raster>,
    strategy: Strategy,
    number_of_strokes: u32,
    max_width: u32,
    min_length: u32,
    max_length: u32,
) -> (result: Result<Painting, GenerateError>)
    ensures
        generation_outcome(
            &*image,
            strategy,
            number_of_strokes,
            max_width,
            min_length,
            max_length,
            result,
        ),
{
    let width = image.width();
    let height = image.height();
    if let Some(fault) = check_config(
        width,
        height,
        number_of_strokes,
        max_width,
        min_length,
        max_length,
    ) {
        return Err(fault);
    }
    proof {
        crate::raster::lemma_area_fits(width, height);
    }
    let pixels: u64 = width as u64 * height as u64;
    let quotient: u64 = pixels / number_of_strokes as u64;
    let bucket: u64 = if quotient == 0 {
        1
    } else {
        quotient
    };
    let total: u64 = pixels / bucket;
    assert(total >= 1) by {
        assert(pixels >= 1) by (nonlinear_arith)
            requires
                pixels == width * height,
                width >= 1,
                height >= 1,
        ;
        assert(pixels / bucket >= 1) by (nonlinear_arith)
            requires
                1 <= bucket <= pixels,
        ;
    }
    let mut strokes: Vec<Stroke> = Vec::new();
    let mut made: u64 = 0;
    while made < total
        invariant
            made <= total,
            total >= 1,
            made == strokes@.len(),
            config_fault(
                width as int,
                height as int,
                number_of_strokes as int,
                max_width as int,
                min_length as int,
                max_length as int,
            ) is None,
            width == image.spec_width(),
            height == image.spec_height(),
            width > 0,
            height > 0,
            max_width > 0,
            made > 0 ==> !no_length_allowed(
                strategy.bound_spec(),
                width as int,
                height as int,
                min_length as int,
                max_length as int,
            ),
            crate::painting::strokes_fit(strokes@, width as int, height as int),
            forall|i: int|
                0 <= i < strokes@.len() ==> is_generated(
                    strategy,
                    image@,
                    width as int,
                    height as int,
                    max_width as int,
                    min_length as int,
                    max_length as int,
                    #[trigger] strokes@[i],
                ),
        decreases total - made,
    {
        match sample_stroke(strategy, &image, max_width, min_length, max_length) {
            Some(stroke) => {
                strokes.push(stroke);
            },
            None => {
                return Err(GenerateError::Exhausted);
            },
        }
        made = made + 1;
    }
    Ok(Painting::assemble(strokes, image))
}

/// What seeding a population of `population` paintings for the image `image`
/// gives, whatever the random words are: a request that `config_fault` faults
/// is refused with that fault, also for an empty population; otherwise each
/// painting is generated on its own as `generation_outcome` says, and the
/// first that cannot be generated fails the whole population.
pub open spec fn population_outcome(
    image: &Raster,
    strategy: Strategy,
    population: u32,
    number_of_strokes: u32,
    max_width: u32,
    min_length: u32,
    max_length: u32,
    result: Result<Vec<Painting>, GenerateError>,
) -> bool {
    let fault = config_fault(
        image.spec_width() as int,
        image.spec_height() as int,
        number_of_strokes as int,
        max_width as int,
        min_length as int,
        max_length as int,
    );
    match result {
        Ok(paintings) => {
            &&& fault is None
            &&& paintings@.len() == population
            &&& forall|i: int|
                0 <= i < paintings@.len() ==> generation_outcome(
                    image,
                    strategy,
                    number_of_strokes,
                    max_width,
                    min_length,
                    max_length,
                    Ok(#[trigger] paintings@[i]),
                )
        },
        Err(error) => {
            ||| fault == Some(error)
            ||| {
                &&& fault is None
                &&& population > 0
                &&& error == GenerateError::Exhausted
                &&& !every_length_allowed(
                    strategy.bound_spec(),
                    image.spec_width() as int,
                    image.spec_height() as int,
                    min_length as int,
                    max_length as int,
                )
                &&& gave_up(
                    strategy.bound_spec(),
                    image.spec_width() as int,
                    image.spec_height() as int,
                    min_length as int,
                    max_length as int,
                )
            }
        },
    }
}

/// Seeds a population: `population` paintings for the image `image`, each
/// generated on its own by the given strategy.
pub fn seed_population(
    image: Arc<Raster>,
    strategy: Strategy,
    population: u32,
    number_of_strokes: u32,
    max_width: u32,
    min_length: u32,
    max_length: u32,
) -> (result: Result<Vec<Painting>, GenerateError>)
    ensures
        population_outcome(
            &*image,
            strategy,
            population,
            number_of_strokes,
            max_width,
            min_length,
            max_length,
            result,
        ),
{
    if let Some(fault) = check_config(
        image.width(),
        image.height(),
        number_of_strokes,
        max_width,
        min_length,
        max_length,
    ) {
        return Err(fault);
    }
    let mut paintings: Vec<Painting> = Vec::new();
    let mut made: u32 = 0;
    while made < population
        invariant
            made <= population,
            made == paintings@.len(),
            config_fault(
                image.spec_width() as int,
                image.spec_height() as int,
                number_of_strokes as int,
                max_width as int,
                min_length as int,
                max_length as int,
            ) is None,
            forall|i: int|
                0 <= i < paintings@.len() ==> generation_outcome(
                    &*image,
                    strategy,
                    number_of_strokes,
                    max_width,
                    min_length,
                    max_length,
                    Ok(#[trigger] paintings@[i]),
                ),
        decreases population - made,
    {
        match generate(
            share(&image),
            strategy,
            number_of_strokes,
            max_width,
            min_length,
            max_length,
        ) {
            Ok(painting) => {
                paintings.push(painting);
            },
            Err(error) => {
                return Err(error);
            },
        }
        made = made + 1;
    }
    Ok(paintings)
}

impl Painting {
    /// Generates a painting whose strokes take the colour of the target where
    /// they start. `number_of_strokes` sets the size of the buckets, `width`
    /// the greatest stroke width; a stroke may be `minlength` to `maxlength`
    /// long, both included.
    pub fn informed_random(
        image: Arc<Raster>,
        number_of_strokes: u32,
        width: u32,
        minlength: u32,
        maxlength: u32,
    ) -> (result: Result<Painting, GenerateError>)
        ensures
            generation_outcome(
                &*image,
                Strategy::Informed,
                number_of_strokes,
                width,
                minlength,
                maxlength,
                result,
            ),
    {
        generate(image, Strategy::Informed, number_of_strokes, width, minlength, maxlength)
    }

    /// Generates a painting whose strokes take the colour of the target at a
    /// point drawn at random. `number_of_strokes` sets the size of the
    /// buckets, `width` the greatest stroke width; a stroke is longer than
    /// `minlength` and shorter than `maxlength`. The greatest curvature is
    /// accepted and unused: strokes are drawn straight.
    pub fn random(
        image: Arc<Raster>,
        number_of_strokes: u32,
        width: u32,
        minlength: u32,
        maxlength: u32,
        _maxcurve: u32,
    ) -> (result: Result<Painting, GenerateError>)
        ensures
            generation_outcome(
                &*image,
                Strategy::Random,
                number_of_strokes,
                width,
                minlength,
                maxlength,
                result,
            ),
    {
        generate(image, Strategy::Random, number_of_strokes, width, minlength, maxlength)
    }
}

} // verus!
