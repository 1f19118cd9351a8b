use vstd::prelude::*;

use crate::painting::{Painting, PaintingView};
use crate::raster::{uniform_pixels, Raster};
use crate::render::rendered;
use crate::stroke::white;

verus! {

/// The score of one pixel that matches the target in all three channels.
pub const PIXEL_BEST: i32 = 765;

/// How far apart two channel values are.
pub open spec fn channel_gap(a: u8, b: u8) -> int {
    if a >= b {
        a - b
    } else {
        b - a
    }
}

/// How close pixel number `pixel` of `rendered` is to the same pixel of
/// `target`: 765 less the gaps of its three channels.
pub open spec fn pixel_closeness(rendered: Seq<u8>, target: Seq<u8>, pixel: int) -> int {
    765 - (channel_gap(rendered[3 * pixel], target[3 * pixel]) + channel_gap(
        rendered[3 * pixel + 1],
        target[3 * pixel + 1],
    ) + channel_gap(rendered[3 * pixel + 2], target[3 * pixel + 2]))
}

/// The closeness of the first `pixels` pixels of `rendered` to those of
/// `target`, summed.
pub open spec fn closeness(rendered: Seq<u8>, target: Seq<u8>, pixels: nat) -> int
    decreases pixels,
{
    if pixels == 0 {
        0
    } else {
        closeness(rendered, target, (pixels - 1) as nat) + pixel_closeness(
            rendered,
            target,
            pixels - 1,
        )
    }
}

/// A score as a 32-bit fitness: itself where it fits, and the greatest
/// 32-bit value where it does not.
pub open spec fn capped(score: int) -> int {
    if score <= i32::MAX {
        score
    } else {
        i32::MAX as int
    }
}

/// The fitness of a painting: the closeness of its rendering to its target
/// over every pixel of the canvas, capped to 32 bits.
pub open spec fn fitness_of(painting: PaintingView) -> int {
    capped(
        closeness(rendered(painting), painting.target, (painting.width * painting.height) as nat),
    )
}

/// The closeness of any two images lies between nothing and 765 for each
/// pixel.
pub proof fn lemma_closeness_bounds(rendered: Seq<u8>, target: Seq<u8>, pixels: nat)
    ensures
        0 <= closeness(rendered, target, pixels) <= 765 * pixels,
    decreases pixels,
{
    if pixels > 0 {
        lemma_closeness_bounds(rendered, target, (pixels - 1) as nat);
    }
}

/// Closeness is greatest, 765 for each pixel, where the two images agree in
/// every byte of the pixels compared.
pub proof fn lemma_closeness_of_equal(rendered: Seq<u8>, target: Seq<u8>, pixels: nat)
    requires
        forall|i: int| 0 <= i < 3 * pixels ==> rendered[i] == target[i],
    ensures
        closeness(rendered, target, pixels) == 765 * pixels,
    decreases pixels,
{
    if pixels > 0 {
        lemma_closeness_of_equal(rendered, target, (pixels - 1) as nat);
    }
}

/// Closeness reaches 765 for each pixel only where the two images agree in
/// every byte of the pixels compared.
pub proof fn lemma_closeness_best_only_if_equal(rendered: Seq<u8>, target: Seq<u8>, pixels: nat)
    requires
        closeness(rendered, target, pixels) == 765 * pixels,
    ensures
        forall|i: int| 0 <= i < 3 * pixels ==> rendered[i] == target[i],
    decreases pixels,
{
    if pixels > 0 {
        lemma_closeness_bounds(rendered, target, (pixels - 1) as nat);
        lemma_closeness_best_only_if_equal(rendered, target, (pixels - 1) as nat);
        assert forall|i: int| 0 <= i < 3 * pixels implies rendered[i] == target[i] by {
            if i >= 3 * (pixels - 1) {
                assert(i == 3 * (pixels - 1) || i == 3 * (pixels - 1) + 1 || i == 3 * (pixels - 1)
                    + 2);
            }
        }
    }
}

/// The fitness of a painting never leaves the range from nothing to 765 for
/// each pixel of its canvas.
pub proof fn lemma_fitness_range(painting: PaintingView)
    requires
        painting.valid(),
    ensures
        0 <= fitness_of(painting) <= 765 * (painting.width * painting.height),
        fitness_of(painting) <= i32::MAX,
{
    assert(painting.width * painting.height >= 0) by (nonlinear_arith)
        requires
            painting.width >= 1,
            painting.height >= 1,
    ;
    lemma_closeness_bounds(
        rendered(painting),
        painting.target,
        (painting.width * painting.height) as nat,
    );
}

/// A painting without strokes whose target is all white is a perfect match:
/// its closeness is 765 for each pixel.
pub proof fn lemma_blank_matches_white(painting: PaintingView)
    requires
        painting.valid(),
        painting.strokes.len() == 0,
        painting.target == uniform_pixels(painting.width * painting.height, white()),
    ensures
        closeness(
            rendered(painting),
            painting.target,
            (painting.width * painting.height) as nat,
        ) == 765 * (painting.width * painting.height),
        fitness_of(painting) == capped(765 * (painting.width * painting.height)),
{
    assert(painting.width * painting.height >= 0) by (nonlinear_arith)
        requires
            painting.width >= 1,
            painting.height >= 1,
    ;
    lemma_closeness_of_equal(
        rendered(painting),
        painting.target,
        (painting.width * painting.height) as nat,
    );
}

/// How close one rendered channel is to the target's, as a machine integer.
fn gap(a: u8, b: u8) -> (g: i32)
    ensures
        g == channel_gap(a, b),
{
    if a >= b {
        (a - b) as i32
    } else {
        (b - a) as i32
    }
}

/// Scores the image `rendered` against `target`, an image of the same size:
/// each pixel earns 765 less the gaps of its three channels, and the sum is
/// capped to 32 bits.
pub fn similarity(rendered: &Raster, target: &Raster) -> (score: i32)
    requires
        rendered.spec_width() == target.spec_width(),
        rendered.spec_height() == target.spec_height(),
    ensures
        score == capped(closeness(rendered@, target@, target.area() as nat)),
        0 <= score <= 765 * target.area(),
{
    let ours = rendered.as_raw();
    let theirs = target.as_raw();
    let pixels: usize = theirs.len() / 3;
    let mut score: i32 = 0;
    let mut at: usize = 0;
    proof {
        lemma_closeness_bounds(rendered@, target@, target.area() as nat);
    }
    while at < pixels
        invariant
            at <= pixels,
            pixels == target.area(),
            3 * pixels <= usize::MAX,
            ours@ == rendered@,
            theirs@ == target@,
            ours@.len() == 3 * pixels,
            theirs@.len() == 3 * pixels,
            score == capped(closeness(rendered@, target@, at as nat)),
        decreases pixels - at,
    {
        proof {
            lemma_closeness_bounds(rendered@, target@, at as nat);
        }
        let base: usize = 3 * at;
        let miss: i32 = gap(ours[base], theirs[base]) + gap(ours[base + 1], theirs[base + 1]) + gap(
            ours[base + 2],
            theirs[base + 2],
        );
        let gain: i32 = PIXEL_BEST - miss;
        assert(gain == pixel_closeness(rendered@, target@, at as int));
        if score > i32::MAX - gain {
            score = i32::MAX;
        } else {
            score = score + gain;
        }
        at = at + 1;
    }
    score
}

impl Painting {
    /// How well the painting matches its target, higher being better: its
    /// rendering is compared with the target pixel by pixel, each pixel
    /// earning 765 less the gaps of its three channels. The sum is capped to
    /// 32 bits; a canvas of up to 2,807,168 pixels cannot reach the cap.
    pub fn fitness(&self) -> (score: i32)
        ensures
            score == fitness_of(self@),
            0 <= score <= 765 * (self@.width * self@.height),
    {
        let canvas = self.render_strokes();
        let target = self.target();
        similarity(&canvas, target)
    }
}

} // verus!
