use vstd::prelude::*;

pub mod point_2d;

use self::point_2d::Point2D;

pub use crate::painting::Painting;

verus! {

/// A colour with eight bits for each of red, green and blue.
#[derive(Clone, Copy, Debug, PartialEq, Eq, Structural)]
pub struct Rgb8 {
    pub red: u8,
    pub green: u8,
    pub blue: u8,
}

impl Rgb8 {
    /// Builds a colour from its three channels.
    pub fn new(red: u8, green: u8, blue: u8) -> (c: Rgb8)
        ensures
            c == (Rgb8 { red, green, blue }),
    {
        Rgb8 { red, green, blue }
    }
}

/// The colour of an empty canvas.
pub open spec fn white() -> Rgb8 {
    Rgb8 { red: 255, green: 255, blue: 255 }
}

/// One stroke of a painting: a segment from `start` to `end`, two control
/// points kept for curved drawing, a colour and a width in pixels.
#[derive(Clone, Copy, Debug, PartialEq, Eq, Structural)]
pub struct Stroke {
    pub start: Point2D,
    pub end: Point2D,
    pub control_a: Point2D,
    pub control_b: Point2D,
    pub color: Rgb8,
    pub width: u32,
}

impl Stroke {
    /// Whether the stroke can belong to a painting of `width` by `height`
    /// pixels: all four points lie on the canvas and the stroke is at least one
    /// pixel wide.
    pub open spec fn fits(self, width: int, height: int) -> bool {
        &&& self.start.in_canvas(width, height)
        &&& self.end.in_canvas(width, height)
        &&& self.control_a.in_canvas(width, height)
        &&& self.control_b.in_canvas(width, height)
        &&& self.width >= 1
    }

    /// The stroke with its four points folded back onto the canvas.
    pub open spec fn wrapped_spec(self, width: int, height: int) -> Stroke {
        Stroke {
            start: self.start.wrapped_spec(width, height),
            end: self.end.wrapped_spec(width, height),
            control_a: self.control_a.wrapped_spec(width, height),
            control_b: self.control_b.wrapped_spec(width, height),
            color: self.color,
            width: self.width,
        }
    }

    /// Builds a stroke from its parts.
    pub fn new(
        start: Point2D,
        end: Point2D,
        control_a: Point2D,
        control_b: Point2D,
        color: Rgb8,
        width: u32,
    ) -> (s: Stroke)
        ensures
            s == (Stroke { start, end, control_a, control_b, color, width }),
    {
        Stroke { start, end, control_a, control_b, color, width }
    }

    /// Folds the four points of the stroke back onto a canvas of `width` by
    /// `height` pixels; colour and stroke width stay.
    pub fn wrapped(self, width: u32, height: u32) -> (s: Stroke)
        requires
            width > 0,
            height > 0,
        ensures
            s == self.wrapped_spec(width as int, height as int),
            self.width >= 1 ==> s.fits(width as int, height as int),
    {
        Stroke {
            start: self.start.wrapped(width, height),
            end: self.end.wrapped(width, height),
            control_a: self.control_a.wrapped(width, height),
            control_b: self.control_b.wrapped(width, height),
            color: self.color,
            width: self.width,
        }
    }
}

/// A stroke that fits the canvas is its own wrapped image.
pub proof fn lemma_wrapped_fits(s: Stroke, width: int, height: int)
    requires
        s.fits(width, height),
    ensures
        s.wrapped_spec(width, height) == s,
{
    point_2d::lemma_wrapped_in_canvas(s.start, width, height);
    point_2d::lemma_wrapped_in_canvas(s.end, width, height);
    point_2d::lemma_wrapped_in_canvas(s.control_a, width, height);
    point_2d::lemma_wrapped_in_canvas(s.control_b, width, height);
}

} // verus!
