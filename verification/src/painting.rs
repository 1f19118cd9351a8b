use std::sync::Arc;
use vstd::prelude::*;

use crate::raster::Raster;
use crate::stroke::Stroke;

verus! {

/// The longest side a canvas may have: the rasteriser places pixels with
/// signed 32-bit coordinates, and a stroke is drawn up to one canvas side away
/// from its own points.
pub const MAX_SIDE: u32 = 0x2000_0000;

/// What a painting is, as mathematics: its strokes in drawing order, the size
/// of its canvas and the bytes of the image it is meant to resemble.
pub struct PaintingView {
    pub strokes: Seq<Stroke>,
    pub width: int,
    pub height: int,
    pub target: Seq<u8>,
}

/// Whether a canvas of `width` by `height` pixels can carry a painting.
pub open spec fn usable_canvas(width: int, height: int) -> bool {
    1 <= width <= MAX_SIDE && 1 <= height <= MAX_SIDE
}

/// Whether every stroke of `strokes` fits a canvas of `width` by `height`.
pub open spec fn strokes_fit(strokes: Seq<Stroke>, width: int, height: int) -> bool {
    forall|i: int| 0 <= i < strokes.len() ==> (#[trigger] strokes[i]).fits(width, height)
}

/// The strokes of `strokes`, each folded back onto the canvas.
pub open spec fn wrapped_strokes(strokes: Seq<Stroke>, width: int, height: int) -> Seq<Stroke> {
    Seq::new(strokes.len(), |i: int| strokes[i].wrapped_spec(width, height))
}

impl PaintingView {
    /// The invariant of every painting: a usable canvas, a target image of
    /// exactly that size, and strokes that all fit the canvas.
    pub open spec fn valid(self) -> bool {
        &&& usable_canvas(self.width, self.height)
        &&& self.target.len() == 3 * (self.width * self.height)
        &&& strokes_fit(self.strokes, self.width, self.height)
    }
}

/// Why a painting could not be put together.
#[derive(Clone, Copy, Debug, PartialEq, Eq, Structural)]
pub enum PaintingError {
    /// The target image has no pixels, or a side longer than `MAX_SIDE`.
    CanvasSize,
    /// One of the strokes is zero pixels wide.
    StrokeWidth,
}

/// What keeps `strokes` from forming a painting on a canvas of `width` by
/// `height` pixels, if anything: first an unusable canvas, then a stroke that
/// is zero pixels wide.
pub open spec fn painting_fault(strokes: Seq<Stroke>, width: int, height: int) -> Option<
    PaintingError,
> {
    if !usable_canvas(width, height) {
        Some(PaintingError::CanvasSize)
    } else if exists|i: int| 0 <= i < strokes.len() && (#[trigger] strokes[i]).width == 0 {
        Some(PaintingError::StrokeWidth)
    } else {
        None
    }
}

/// A collection of strokes forming a painting, together with the image that
/// the painting is meant to resemble.
#[derive(Debug)]
pub struct Painting {
    strokes: Vec<Stroke>,
    width: u32,
    height: u32,
    target: Arc<Raster>,
}

impl View for Painting {
    type V = PaintingView;

    closed spec fn view(&self) -> PaintingView {
        PaintingView {
            strokes: self.strokes@,
            width: self.width as int,
            height: self.height as int,
            target: self.target@,
        }
    }
}

/// Another handle on the same image: `Arc::clone`, which copies the pointer
/// and leaves the image as it is.
#[verifier::external_body]
pub(crate) fn share(image: &Arc<Raster>) -> (shared: Arc<Raster>)
    ensures
        shared == *image,
{
    Arc::clone(image)
}

/// A copy of a sequence of strokes.
pub(crate) fn copy_strokes(strokes: &Vec<Stroke>) -> (copy: Vec<Stroke>)
    ensures
        copy@ == strokes@,
{
    let mut copy: Vec<Stroke> = Vec::new();
    let mut at: usize = 0;
    while at < strokes.len()
        invariant
            at <= strokes.len(),
            copy@ == strokes@.take(at as int),
        decreases strokes.len() - at,
    {
        copy.push(strokes[at]);
        at = at + 1;
        assert(copy@ =~= strokes@.take(at as int));
    }
    assert(copy@ =~= strokes@);
    copy
}

impl Clone for Painting {
    /// A painting with the same strokes and canvas, sharing the target.
    fn clone(&self) -> (copy: Painting)
        ensures
            copy@ == self@,
    {
        proof {
            use_type_invariant(self);
        }
        Painting {
            strokes: copy_strokes(&self.strokes),
            width: self.width,
            height: self.height,
            target: share(&self.target),
        }
    }
}

impl Painting {
    #[verifier::type_invariant]
    spec fn well_formed(self) -> bool {
        &&& self@.valid()
        &&& self.target.spec_width() == self.width
        &&& self.target.spec_height() == self.height
    }

    /// The painting that has the strokes `strokes`, in that order, and the
    /// canvas and target `target`. Points that lie off the canvas are folded
    /// back onto it, each coordinate modulo its side. An unusable canvas or a
    /// stroke without width is refused, as `painting_fault` says.
    pub fn new(strokes: Vec<Stroke>, target: Arc<Raster>) -> (result: Result<
        Painting,
        PaintingError,
    >)
        ensures
            match result {
                Ok(painting) => {
                    &&& painting_fault(
                        strokes@,
                        target.spec_width() as int,
                        target.spec_height() as int,
                    ) is None
                    &&& painting@ == (PaintingView {
                        strokes: wrapped_strokes(
                            strokes@,
                            target.spec_width() as int,
                            target.spec_height() as int,
                        ),
                        width: target.spec_width() as int,
                        height: target.spec_height() as int,
                        target: target@,
                    })
                    &&& painting@.valid()
                },
                Err(error) => painting_fault(
                    strokes@,
                    target.spec_width() as int,
                    target.spec_height() as int,
                ) == Some(error),
            },
    {
        let width = target.width();
        let height = target.height();
        if width == 0 || height == 0 || width > MAX_SIDE || height > MAX_SIDE {
            return Err(PaintingError::CanvasSize);
        }
        let ghost folded = wrapped_strokes(strokes@, width as int, height as int);
        let mut fitted: Vec<Stroke> = Vec::new();
        let mut at: usize = 0;
        while at < strokes.len()
            invariant
                at <= strokes.len(),
                width == target.spec_width(),
                height == target.spec_height(),
                usable_canvas(width as int, height as int),
                folded == wrapped_strokes(strokes@, width as int, height as int),
                fitted@ == folded.take(at as int),
                strokes_fit(fitted@, width as int, height as int),
                forall|i: int| 0 <= i < at ==> (#[trigger] strokes@[i]).width != 0,
            decreases strokes.len() - at,
        {
            let stroke = strokes[at];
            if stroke.width == 0 {
                return Err(PaintingError::StrokeWidth);
            }
            fitted.push(stroke.wrapped(width, height));
            at = at + 1;
            assert(fitted@ =~= folded.take(at as int));
        }
        assert(fitted@ =~= folded);
        Ok(Painting::assemble(fitted, target))
    }

    /// Puts together a painting from strokes that already fit the canvas of
    /// `target`.
    pub(crate) fn assemble(strokes: Vec<Stroke>, target: Arc<Raster>) -> (painting: Painting)
        requires
            usable_canvas(target.spec_width() as int, target.spec_height() as int),
            strokes_fit(strokes@, target.spec_width() as int, target.spec_height() as int),
        ensures
            painting@ == (PaintingView {
                strokes: strokes@,
                width: target.spec_width() as int,
                height: target.spec_height() as int,
                target: target@,
            }),
            painting@.valid(),
    {
        let width = target.width();
        let height = target.height();
        let _ = target.as_raw();
        Painting { strokes, width, height, target }
    }

    /// The strokes, in drawing order.
    pub fn strokes(&self) -> (strokes: &Vec<Stroke>)
        ensures
            strokes@ == self@.strokes,
            self@.valid(),
    {
        proof {
            use_type_invariant(self);
        }
        &self.strokes
    }

    /// The width of the canvas in pixels.
    pub fn width(&self) -> (width: u32)
        ensures
            width == self@.width,
            self@.valid(),
    {
        proof {
            use_type_invariant(self);
        }
        self.width
    }

    /// The height of the canvas in pixels.
    pub fn height(&self) -> (height: u32)
        ensures
            height == self@.height,
            self@.valid(),
    {
        proof {
            use_type_invariant(self);
        }
        self.height
    }

    /// The image that the painting is meant to resemble.
    pub fn target(&self) -> (target: &Arc<Raster>)
        ensures
            target@ == self@.target,
            target.spec_width() == self@.width,
            target.spec_height() == self@.height,
            self@.valid(),
    {
        proof {
            use_type_invariant(self);
        }
        &self.target
    }
}

} // verus!
