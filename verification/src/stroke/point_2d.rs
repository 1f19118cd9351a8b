use vstd::prelude::*;

verus! {

/// An integer coordinate on the canvas.
#[derive(Clone, Copy, Debug, PartialEq, Eq, Structural)]
pub struct Point2D {
    pub x: u32,
    pub y: u32,
}

impl Point2D {
    /// Whether the point lies on a canvas of `width` by `height` pixels.
    pub open spec fn in_canvas(self, width: int, height: int) -> bool {
        self.x < width && self.y < height
    }

    /// The point folded back onto a canvas of `width` by `height` pixels:
    /// each coordinate is taken modulo the matching side.
    pub open spec fn wrapped_spec(self, width: int, height: int) -> Point2D {
        Point2D { x: (self.x as int % width) as u32, y: (self.y as int % height) as u32 }
    }

    /// Builds the point `(x, y)`.
    pub fn new(x: u32, y: u32) -> (p: Point2D)
        ensures
            p == (Point2D { x, y }),
    {
        Point2D { x, y }
    }

    /// The control point of a curve that starts here and stops at `_end`.
    /// Curves are drawn as straight segments, so every stroke gets the canvas
    /// origin as its control point.
    pub fn get_control(&self, _end: &Point2D) -> (control: Point2D)
        ensures
            control == (Point2D { x: 0, y: 0 }),
    {
        Point2D { x: 0, y: 0 }
    }

    /// Folds the point back onto a canvas of `width` by `height` pixels.
    #[verifier::when_used_as_spec(wrapped_spec_u32)]
    pub fn wrapped(self, width: u32, height: u32) -> (p: Point2D)
        requires
            width > 0,
            height > 0,
        ensures
            p == self.wrapped_spec(width as int, height as int),
            p.in_canvas(width as int, height as int),
    {
        Point2D { x: self.x % width, y: self.y % height }
    }

    /// `wrapped_spec` on machine integers.
    pub open spec fn wrapped_spec_u32(self, width: u32, height: u32) -> Point2D {
        self.wrapped_spec(width as int, height as int)
    }
}

impl Default for Point2D {
    fn default() -> (p: Point2D)
        ensures
            p == (Point2D { x: 0, y: 0 }),
    {
        Point2D { x: 0, y: 0 }
    }
}

/// A point on the canvas is its own wrapped image.
pub proof fn lemma_wrapped_in_canvas(p: Point2D, width: int, height: int)
    requires
        p.in_canvas(width, height),
    ensures
        p.wrapped_spec(width, height) == p,
{
    assert(p.x as int % width == p.x as int) by {
        vstd::arithmetic::div_mod::lemma_small_mod(p.x as nat, width as nat);
    }
    assert(p.y as int % height == p.y as int) by {
        vstd::arithmetic::div_mod::lemma_small_mod(p.y as nat, height as nat);
    }
}

} // verus!
