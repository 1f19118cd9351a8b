use vstd::prelude::*;

use crate::painting::{Painting, PaintingView};
use crate::raster::{uniform_pixels, Raster};
use crate::stroke::{white, Rgb8, Stroke};

verus! {

/// Coordinates handed to the rasteriser stay below this limit, well inside
/// its signed 32-bit arithmetic.
pub const COORDINATE_LIMIT: u32 = 0x4000_0000;

/// The bytes of an image of `width` by `height` pixels, `pixels`, after
/// `imageproc::drawing::draw_antialiased_line_segment_mut` has drawn the
/// segment from `(x0, y0)` to `(x1, y1)` on it in the colour `(red, green,
/// blue)`, blending with `imageproc::pixelops::interpolate`.
pub uninterp spec fn drawn_segment(
    width: int,
    height: int,
    pixels: Seq<u8>,
    x0: int,
    y0: int,
    x1: int,
    y1: int,
    red: u8,
    green: u8,
    blue: u8,
) -> Seq<u8>;

/// Draws one antialiased segment, one pixel wide, on the image whose bytes
/// are `pixels`: `imageproc::drawing::draw_antialiased_line_segment_mut`, with
/// `imageproc::pixelops::interpolate` to blend, on an `image::RgbImage` made of
/// the bytes by `from_raw` and turned back into bytes by `into_raw`.
///
/// The contract names the outcome and claims one thing of it: drawing
/// rewrites pixels in place, so the image keeps its length. The rasteriser
/// draws what lies on the image of a segment and skips the rest; with
/// coordinates below `COORDINATE_LIMIT` none of its sums leaves 32 bits. The
/// image has at least one pixel and exactly three bytes for each, so that
/// `from_raw` finds the bytes it counts, whatever the size of a machine word.
#[verifier::external_body]
fn draw_segment(
    width: u32,
    height: u32,
    pixels: Vec<u8>,
    x0: u32,
    y0: u32,
    x1: u32,
    y1: u32,
    color: Rgb8,
) -> (out: Vec<u8>)
    requires
        width >= 1,
        height >= 1,
        pixels@.len() == 3 * (width as int * height as int),
        x0 < COORDINATE_LIMIT,
        y0 < COORDINATE_LIMIT,
        x1 < COORDINATE_LIMIT,
        y1 < COORDINATE_LIMIT,
    ensures
        out@ == drawn_segment(
            width as int,
            height as int,
            pixels@,
            x0 as int,
            y0 as int,
            x1 as int,
            y1 as int,
            color.red,
            color.green,
            color.blue,
        ),
        out@.len() == pixels@.len(),
{
    let mut canvas = image::RgbImage::from_raw(width, height, pixels).unwrap();
    imageproc::drawing::draw_antialiased_line_segment_mut(
        &mut canvas,
        (x0 as i32, y0 as i32),
        (x1 as i32, y1 as i32),
        image::Rgb([color.red, color.green, color.blue]),
        imageproc::pixelops::interpolate,
    );
    canvas.into_raw()
}

/// How many of the parallel segments of a stroke `stroke_width` pixels wide
/// are drawn on a canvas of `width` by `height` pixels. The segment number
/// `k` is the stroke's own segment moved `k` pixels right and `k` pixels
/// down, so from the longer canvas side on every segment lies off the canvas
/// and is left out.
pub open spec fn visible_lines(stroke_width: int, width: int, height: int) -> int {
    let side = if width >= height {
        width
    } else {
        height
    };
    if stroke_width <= side {
        stroke_width
    } else {
        side
    }
}

/// The bytes `pixels` after the first `lines` parallel segments of `stroke`
/// have been drawn on them, the stroke's own segment first.
pub open spec fn with_lines(
    width: int,
    height: int,
    pixels: Seq<u8>,
    stroke: Stroke,
    lines: nat,
) -> Seq<u8>
    decreases lines,
{
    if lines == 0 {
        pixels
    } else {
        let k = lines - 1;
        drawn_segment(
            width,
            height,
            with_lines(width, height, pixels, stroke, k as nat),
            stroke.start.x + k,
            stroke.start.y + k,
            stroke.end.x + k,
            stroke.end.y + k,
            stroke.color.red,
            stroke.color.green,
            stroke.color.blue,
        )
    }
}

/// The bytes `pixels` after the strokes of `strokes` have been drawn on them
/// in order, so that a later stroke covers an earlier one.
pub open spec fn with_strokes(
    width: int,
    height: int,
    pixels: Seq<u8>,
    strokes: Seq<Stroke>,
) -> Seq<u8>
    decreases strokes.len(),
{
    if strokes.len() == 0 {
        pixels
    } else {
        with_lines(
            width,
            height,
            with_strokes(width, height, pixels, strokes.drop_last()),
            strokes.last(),
            visible_lines(strokes.last().width as int, width, height) as nat,
        )
    }
}

/// The bytes of the image that a painting renders to: its strokes drawn in
/// order on a white canvas.
pub open spec fn rendered(painting: PaintingView) -> Seq<u8> {
    with_strokes(
        painting.width,
        painting.height,
        uniform_pixels(painting.width * painting.height, white()),
        painting.strokes,
    )
}

/// Draws the visible segments of one stroke.
fn draw_stroke(width: u32, height: u32, pixels: Vec<u8>, stroke: Stroke) -> (out: Vec<u8>)
    requires
        crate::painting::usable_canvas(width as int, height as int),
        pixels@.len() == 3 * (width as int * height as int),
        stroke.fits(width as int, height as int),
    ensures
        out@ == with_lines(
            width as int,
            height as int,
            pixels@,
            stroke,
            visible_lines(stroke.width as int, width as int, height as int) as nat,
        ),
        out@.len() == pixels@.len(),
{
    let side: u32 = if width >= height {
        width
    } else {
        height
    };
    let lines: u32 = if stroke.width <= side {
        stroke.width
    } else {
        side
    };
    let ghost before = pixels@;
    let mut out = pixels;
    let mut k: u32 = 0;
    while k < lines
        invariant
            k <= lines,
            lines <= crate::painting::MAX_SIDE,
            stroke.fits(width as int, height as int),
            crate::painting::usable_canvas(width as int, height as int),
            out@.len() == 3 * (width as int * height as int),
            out@.len() == before.len(),
            out@ == with_lines(width as int, height as int, before, stroke, k as nat),
        decreases lines - k,
    {
        out = draw_segment(
            width,
            height,
            out,
            stroke.start.x + k,
            stroke.start.y + k,
            stroke.end.x + k,
            stroke.end.y + k,
            stroke.color,
        );
        k = k + 1;
    }
    out
}

impl Painting {
    /// Renders the strokes into an image of the painting's size: a white
    /// canvas on which each stroke is drawn in turn, as many parallel
    /// antialiased segments as the stroke is wide.
    pub fn render_strokes(&self) -> (canvas: Raster)
        ensures
            canvas.spec_width() == self@.width,
            canvas.spec_height() == self@.height,
            canvas@ == rendered(self@),
            canvas@.len() == 3 * (self@.width * self@.height),
            self@.strokes.len() == 0 ==> canvas@ == uniform_pixels(
                self@.width * self@.height,
                white(),
            ),
    {
        let width = self.width();
        let height = self.height();
        let strokes = self.strokes();
        let bytes: usize = self.target().as_raw().len();
        let blank = Raster::filled(width, height, Rgb8 { red: 255, green: 255, blue: 255 });
        let mut pixels = blank.unwrap().into_raw();
        let ghost start = pixels@;
        let mut done: usize = 0;
        while done < strokes.len()
            invariant
                done <= strokes.len(),
                strokes@ == self@.strokes,
                self@.valid(),
                width == self@.width,
                height == self@.height,
                pixels@.len() == 3 * (width as int * height as int),
                pixels@ == with_strokes(
                    width as int,
                    height as int,
                    start,
                    strokes@.take(done as int),
                ),
            decreases strokes.len() - done,
        {
            let stroke = strokes[done];
            assert(strokes@.take(done + 1).drop_last() == strokes@.take(done as int));
            assert(strokes@.take(done + 1).last() == stroke);
            pixels = draw_stroke(width, height, pixels, stroke);
            done = done + 1;
        }
        assert(strokes@.take(done as int) == strokes@);
        Raster::from_raw(width, height, pixels).unwrap()
    }
}

} // verus!
