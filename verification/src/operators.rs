use vstd::multiset::Multiset;
use vstd::prelude::*;

use crate::chance::{random_u32, random_usize};
use crate::painting::{copy_strokes, share, strokes_fit, wrapped_strokes, Painting, PaintingView};
use crate::stroke::point_2d::Point2D;
use crate::stroke::{Rgb8, Stroke};

verus! {

/// How many strokes one mutation replaces.
pub const MUTATION_ROUNDS: usize = 10;

/// A coordinate moves, and a width grows, by less than this.
pub const JITTER: u32 = 30;

/// The random words of one round of mutation: which stroke, which part of
/// it, and by how much.
#[derive(Clone, Copy, Debug, PartialEq, Eq, Structural)]
pub struct MutationDraw {
    pub index: usize,
    pub kind: u32,
    pub first: u32,
    pub second: u32,
}

/// Where both parents are cut: half the stroke count of the first parent, and
/// for a shorter second parent no more than that one holds.
pub open spec fn cut_points(first_count: int, second_count: int) -> (int, int) {
    let middle = first_count / 2;
    (
        middle,
        if middle <= second_count {
            middle
        } else {
            second_count
        },
    )
}

/// The child of `a` and `b`. Both parents are cut at `cut_points`; the child
/// is the front of `a` followed by the back of `b` where `front_of_first`
/// holds, and the front of `b` followed by the back of `a` where it does not.
/// The child has the canvas and the target of `a`, onto which the strokes of
/// `b` are folded.
pub open spec fn crossed(a: PaintingView, b: PaintingView, front_of_first: bool) -> PaintingView {
    let (middle, cut) = cut_points(a.strokes.len() as int, b.strokes.len() as int);
    let theirs = wrapped_strokes(b.strokes, a.width, a.height);
    PaintingView {
        strokes: if front_of_first {
            a.strokes.take(middle) + theirs.skip(cut)
        } else {
            theirs.take(cut) + a.strokes.skip(middle)
        },
        width: a.width,
        height: a.height,
        target: a.target,
    }
}

/// The point `p` moved right by `dx % 30` and down by `dy % 30` on a canvas
/// of `width` by `height` pixels, coming back in on the other side where it
/// leaves the canvas.
pub open spec fn jittered(p: Point2D, dx: u32, dy: u32, width: int, height: int) -> Point2D {
    Point2D {
        x: ((p.x + dx % JITTER) % width) as u32,
        y: ((p.y + dy % JITTER) % height) as u32,
    }
}

/// A stroke width grown by `by % 30`, stopping at the greatest 32-bit value.
pub open spec fn widened(stroke_width: u32, by: u32) -> u32 {
    if stroke_width + by % JITTER <= u32::MAX {
        (stroke_width + by % JITTER) as u32
    } else {
        u32::MAX
    }
}

/// The stroke `stroke` changed as `draw` says: `kind % 3` picks the start
/// point, the end point or the width; a point is jittered by the two other
/// words, the width is widened by the first of them.
pub open spec fn perturbed(stroke: Stroke, draw: MutationDraw, width: int, height: int) -> Stroke {
    if draw.kind % 3 == 0 {
        Stroke {
            start: jittered(stroke.start, draw.first, draw.second, width, height),
            end: stroke.end,
            control_a: stroke.control_a,
            control_b: stroke.control_b,
            color: stroke.color,
            width: stroke.width,
        }
    } else if draw.kind % 3 == 1 {
        Stroke {
            start: stroke.start,
            end: jittered(stroke.end, draw.first, draw.second, width, height),
            control_a: stroke.control_a,
            control_b: stroke.control_b,
            color: stroke.color,
            width: stroke.width,
        }
    } else {
        Stroke {
            start: stroke.start,
            end: stroke.end,
            control_a: stroke.control_a,
            control_b: stroke.control_b,
            color: stroke.color,
            width: widened(stroke.width, draw.first),
        }
    }
}

/// One round of mutation. The index is `draw.index` modulo the stroke count.
/// The stroke at that index leaves the sequence, and its changed copy joins
/// the sequence at the end.
pub open spec fn after_round(
    current: Seq<Stroke>,
    draw: MutationDraw,
    width: int,
    height: int,
) -> Seq<Stroke> {
    let index = draw.index as int % current.len() as int;
    current.remove(index).push(perturbed(current[index], draw, width, height))
}

/// The strokes `strokes` after one round for each of `draws`, in order. A
/// later round works on what the earlier rounds left, so it may fall on a
/// stroke that an earlier round has already changed.
pub open spec fn after_rounds(
    strokes: Seq<Stroke>,
    draws: Seq<MutationDraw>,
    width: int,
    height: int,
) -> Seq<Stroke>
    decreases draws.len(),
{
    if draws.len() == 0 {
        strokes
    } else {
        after_round(
            after_rounds(strokes, draws.drop_last(), width, height),
            draws.last(),
            width,
            height,
        )
    }
}

/// The painting `painting` after one round of mutation for each of `draws`.
/// A painting without strokes has nothing to change and stays as it is.
pub open spec fn mutated(painting: PaintingView, draws: Seq<MutationDraw>) -> PaintingView {
    PaintingView {
        strokes: if painting.strokes.len() == 0 {
            painting.strokes
        } else {
            after_rounds(painting.strokes, draws, painting.width, painting.height)
        },
        width: painting.width,
        height: painting.height,
        target: painting.target,
    }
}

/// What mutation never touches in a stroke: its colour and its two control
/// points.
pub open spec fn kept_part(stroke: Stroke) -> (Rgb8, Point2D, Point2D) {
    (stroke.color, stroke.control_a, stroke.control_b)
}

/// The kept parts of the strokes of `strokes`, each as often as it occurs.
pub open spec fn kept_parts(strokes: Seq<Stroke>) -> Multiset<(Rgb8, Point2D, Point2D)> {
    strokes.map_values(|stroke: Stroke| kept_part(stroke)).to_multiset()
}

/// Moves a point right by `dx % 30` and down by `dy % 30`, wrapping at the
/// sides of the canvas: the result always lies on the canvas.
pub fn jitter(p: Point2D, dx: u32, dy: u32, width: u32, height: u32) -> (moved: Point2D)
    requires
        width > 0,
        height > 0,
    ensures
        moved == jittered(p, dx, dy, width as int, height as int),
        moved.in_canvas(width as int, height as int),
{
    let x: u64 = (p.x as u64 + (dx % JITTER) as u64) % (width as u64);
    let y: u64 = (p.y as u64 + (dy % JITTER) as u64) % (height as u64);
    Point2D { x: x as u32, y: y as u32 }
}

/// Changes one stroke as `draw` says.
pub fn perturb(stroke: Stroke, draw: MutationDraw, width: u32, height: u32) -> (changed: Stroke)
    requires
        width > 0,
        height > 0,
    ensures
        changed == perturbed(stroke, draw, width as int, height as int),
        stroke.fits(width as int, height as int) ==> changed.fits(width as int, height as int),
{
    let kind: u32 = draw.kind % 3;
    let mut changed = stroke;
    if kind == 0 {
        changed.start = jitter(stroke.start, draw.first, draw.second, width, height);
    } else if kind == 1 {
        changed.end = jitter(stroke.end, draw.first, draw.second, width, height);
    } else {
        let by: u32 = draw.first % JITTER;
        changed.width = if stroke.width > u32::MAX - by {
            u32::MAX
        } else {
            stroke.width + by
        };
    }
    changed
}

/// Mutation keeps the number of strokes, whatever is drawn.
pub proof fn lemma_after_rounds_count(
    strokes: Seq<Stroke>,
    draws: Seq<MutationDraw>,
    width: int,
    height: int,
)
    requires
        strokes.len() > 0,
    ensures
        after_rounds(strokes, draws, width, height).len() == strokes.len(),
    decreases draws.len(),
{
    if draws.len() > 0 {
        lemma_after_rounds_count(strokes, draws.drop_last(), width, height);
    }
}

/// A mutated painting has the stroke count, the canvas and the target of the
/// painting it came from.
pub proof fn lemma_mutated_count(painting: PaintingView, draws: Seq<MutationDraw>)
    ensures
        mutated(painting, draws).strokes.len() == painting.strokes.len(),
        mutated(painting, draws).width == painting.width,
        mutated(painting, draws).height == painting.height,
        mutated(painting, draws).target == painting.target,
{
    if painting.strokes.len() > 0 {
        lemma_after_rounds_count(painting.strokes, draws, painting.width, painting.height);
    }
}

/// A round of mutation changes a stroke and moves it to the end, and neither
/// loses a stroke nor doubles one: every colour with its control points
/// occurs after the round as often as before.
pub proof fn lemma_after_round_keeps_parts(
    current: Seq<Stroke>,
    draw: MutationDraw,
    width: int,
    height: int,
)
    requires
        current.len() > 0,
    ensures
        kept_parts(after_round(current, draw, width, height)) == kept_parts(current),
{
    let index = draw.index as int % current.len() as int;
    let changed = perturbed(current[index], draw, width, height);
    let parts = current.map_values(|stroke: Stroke| kept_part(stroke));
    let after = after_round(current, draw, width, height).map_values(
        |stroke: Stroke| kept_part(stroke),
    );
    assert(kept_part(changed) == kept_part(current[index]));
    assert(after =~= parts.remove(index).push(parts[index]));
    vstd::seq_lib::to_multiset_remove(parts, index);
    vstd::seq_lib::to_multiset_build(parts.remove(index), parts[index]);
    parts.to_multiset_ensures();
    assert(parts.to_multiset().count(parts[index]) > 0) by {
        assert(parts.contains(parts[index]));
    }
    assert(parts.to_multiset().remove(parts[index]).insert(parts[index]) =~= parts.to_multiset());
}

/// Mutation neither loses a stroke nor doubles one, whatever is drawn: every
/// colour with its control points occurs in the mutated painting as often as
/// in the painting it came from.
pub proof fn lemma_mutated_keeps_parts(painting: PaintingView, draws: Seq<MutationDraw>)
    ensures
        kept_parts(mutated(painting, draws).strokes) == kept_parts(painting.strokes),
    decreases draws.len(),
{
    if painting.strokes.len() > 0 && draws.len() > 0 {
        lemma_mutated_keeps_parts(painting, draws.drop_last());
        lemma_after_rounds_count(
            painting.strokes,
            draws.drop_last(),
            painting.width,
            painting.height,
        );
        lemma_after_round_keeps_parts(
            after_rounds(painting.strokes, draws.drop_last(), painting.width, painting.height),
            draws.last(),
            painting.width,
            painting.height,
        );
    }
}

/// A point on a canvas with sides of thirty pixels or more is moved by every
/// jitter that is not a multiple of thirty on both axes.
pub proof fn lemma_jittered_differs(p: Point2D, dx: u32, dy: u32, width: int, height: int)
    requires
        p.in_canvas(width, height),
        JITTER <= width <= u32::MAX,
        JITTER <= height <= u32::MAX,
        dx % JITTER != 0 || dy % JITTER != 0,
    ensures
        jittered(p, dx, dy, width, height) != p,
        dx % JITTER != 0 ==> jittered(p, dx, dy, width, height).x != p.x,
        dy % JITTER != 0 ==> jittered(p, dx, dy, width, height).y != p.y,
{
    lemma_shifted_differs(p.x as int, (dx % JITTER) as int, width);
    lemma_shifted_differs(p.y as int, (dy % JITTER) as int, height);
}

/// A coordinate moved by less than the side it wraps at comes back to where
/// it was only where it is not moved at all.
proof fn lemma_shifted_differs(x: int, by: int, side: int)
    requires
        0 <= x < side,
        0 <= by < side,
    ensures
        0 <= (x + by) % side < side,
        by != 0 ==> (x + by) % side != x,
{
    if x + by < side {
        vstd::arithmetic::div_mod::lemma_small_mod((x + by) as nat, side as nat);
    } else {
        vstd::arithmetic::div_mod::lemma_small_mod((x + by - side) as nat, side as nat);
        vstd::arithmetic::div_mod::lemma_mod_sub_multiples_vanish(x + by, side);
    }
}

/// A round of mutation whose jitter is not zero changes the stroke it falls
/// on, in the part that its kind names: on a canvas with sides of thirty
/// pixels or more a point is moved, and a width that is not yet the greatest
/// 32-bit value grows. The changed stroke is the last of the sequence.
pub proof fn lemma_round_changes_stroke(
    current: Seq<Stroke>,
    draw: MutationDraw,
    width: int,
    height: int,
)
    requires
        current.len() > 0,
        strokes_fit(current, width, height),
        JITTER <= width <= u32::MAX,
        JITTER <= height <= u32::MAX,
    ensures
        ({
            let picked = current[draw.index as int % current.len() as int];
            let appended = after_round(current, draw, width, height).last();
            &&& appended == perturbed(picked, draw, width, height)
            &&& draw.kind % 3 == 0 && (draw.first % JITTER != 0 || draw.second % JITTER != 0)
                ==> appended.start != picked.start
            &&& draw.kind % 3 == 1 && (draw.first % JITTER != 0 || draw.second % JITTER != 0)
                ==> appended.end != picked.end
            &&& draw.kind % 3 == 2 && draw.first % JITTER != 0 && picked.width < u32::MAX
                ==> appended.width > picked.width
        }),
{
    let index = draw.index as int % current.len() as int;
    let picked = current[index];
    assert(picked.fits(width, height));
    if draw.first % JITTER != 0 || draw.second % JITTER != 0 {
        lemma_jittered_differs(picked.start, draw.first, draw.second, width, height);
        lemma_jittered_differs(picked.end, draw.first, draw.second, width, height);
    }
}

/// The child always has the canvas and the target of the first parent. Where
/// the cut falls inside the second parent, the child has as many strokes as
/// the second parent where the front of the first is taken, and as many as
/// the first parent where its back is taken. So parents with equal stroke
/// counts have a child with that count, whichever candidate is picked.
pub proof fn lemma_crossed_count(a: PaintingView, b: PaintingView, front_of_first: bool)
    ensures
        crossed(a, b, front_of_first).width == a.width,
        crossed(a, b, front_of_first).height == a.height,
        crossed(a, b, front_of_first).target == a.target,
        a.strokes.len() / 2 <= b.strokes.len() ==> crossed(a, b, front_of_first).strokes.len() == (
        if front_of_first {
            b.strokes.len()
        } else {
            a.strokes.len()
        }),
        a.strokes.len() == b.strokes.len() ==> crossed(a, b, front_of_first).strokes.len()
            == a.strokes.len(),
{
    let (middle, cut) = cut_points(a.strokes.len() as int, b.strokes.len() as int);
    let theirs = wrapped_strokes(b.strokes, a.width, a.height);
    assert(theirs.len() == b.strokes.len());
    assert(a.strokes.take(middle).len() == middle);
    assert(a.strokes.skip(middle).len() == a.strokes.len() - middle);
    assert(theirs.take(cut).len() == cut);
    assert(theirs.skip(cut).len() == b.strokes.len() - cut);
}

/// Where both parents share a canvas, no stroke of the second is moved: the
/// child holds the strokes of its parents as they are.
pub proof fn lemma_crossed_same_canvas(a: PaintingView, b: PaintingView)
    requires
        b.valid(),
        a.width == b.width,
        a.height == b.height,
    ensures
        wrapped_strokes(b.strokes, a.width, a.height) == b.strokes,
{
    assert forall|i: int| 0 <= i < b.strokes.len() implies b.strokes[i].wrapped_spec(
        a.width,
        a.height,
    ) == b.strokes[i] by {
        crate::stroke::lemma_wrapped_fits(b.strokes[i], a.width, a.height);
    }
    assert(wrapped_strokes(b.strokes, a.width, a.height) =~= b.strokes);
}

impl Painting {
    /// The child of this painting and `other` that `crossed` describes, with
    /// the choice between the two candidates handed in.
    pub fn crossover_with(&self, other: &Painting, front_of_first: bool) -> (child: Painting)
        ensures
            child@ == crossed(self@, other@, front_of_first),
            child@.valid(),
    {
        let width = self.width();
        let height = self.height();
        let ours = self.strokes();
        let theirs = other.strokes();
        let middle: usize = ours.len() / 2;
        let cut: usize = if middle <= theirs.len() {
            middle
        } else {
            theirs.len()
        };
        let ghost folded = wrapped_strokes(other@.strokes, width as int, height as int);
        let mut strokes: Vec<Stroke> = Vec::new();
        if front_of_first {
            let mut at: usize = 0;
            while at < middle
                invariant
                    at <= middle <= ours.len(),
                    ours@ == self@.strokes,
                    self@.valid(),
                    strokes@ == ours@.take(at as int),
                decreases middle - at,
            {
                strokes.push(ours[at]);
                at = at + 1;
                assert(strokes@ =~= ours@.take(at as int));
            }
            let mut from: usize = cut;
            while from < theirs.len()
                invariant
                    cut <= from <= theirs.len(),
                    theirs@ == other@.strokes,
                    other@.valid(),
                    self@.valid(),
                    width == self@.width,
                    height == self@.height,
                    folded == wrapped_strokes(other@.strokes, width as int, height as int),
                    strokes@ == ours@.take(middle as int) + folded.subrange(
                        cut as int,
                        from as int,
                    ),
                decreases theirs.len() - from,
            {
                strokes.push(theirs[from].wrapped(width, height));
                from = from + 1;
                assert(strokes@ =~= ours@.take(middle as int) + folded.subrange(
                    cut as int,
                    from as int,
                ));
            }
            assert(folded.subrange(cut as int, theirs.len() as int) =~= folded.skip(cut as int));
        } else {
            let mut from: usize = 0;
            while from < cut
                invariant
                    from <= cut <= theirs.len(),
                    theirs@ == other@.strokes,
                    other@.valid(),
                    self@.valid(),
                    width == self@.width,
                    height == self@.height,
                    folded == wrapped_strokes(other@.strokes, width as int, height as int),
                    strokes@ == folded.take(from as int),
                decreases cut - from,
            {
                strokes.push(theirs[from].wrapped(width, height));
                from = from + 1;
                assert(strokes@ =~= folded.take(from as int));
            }
            let mut at: usize = middle;
            while at < ours.len()
                invariant
                    middle <= at <= ours.len(),
                    ours@ == self@.strokes,
                    strokes@ == folded.take(cut as int) + ours@.subrange(middle as int, at as int),
                decreases ours.len() - at,
            {
                strokes.push(ours[at]);
                at = at + 1;
                assert(strokes@ =~= folded.take(cut as int) + ours@.subrange(
                    middle as int,
                    at as int,
                ));
            }
            assert(ours@.subrange(middle as int, ours.len() as int) =~= ours@.skip(middle as int));
        }
        assert(strokes_fit(strokes@, width as int, height as int)) by {
            assert forall|i: int| 0 <= i < strokes@.len() implies (#[trigger] strokes@[i]).fits(
                width as int,
                height as int,
            ) by {
                let (m, c) = cut_points(ours@.len() as int, theirs@.len() as int);
                if front_of_first {
                    if i >= m {
                        assert(strokes@[i] == folded[i - m + c]);
                        assert(other@.strokes[i - m + c].fits(other@.width, other@.height));
                    } else {
                        assert(strokes@[i] == ours@[i]);
                    }
                } else {
                    if i < c {
                        assert(strokes@[i] == folded[i]);
                        assert(other@.strokes[i].fits(other@.width, other@.height));
                    } else {
                        assert(strokes@[i] == ours@[i - c + m]);
                    }
                }
            }
        }
        Painting::assemble(strokes, share(self.target()))
    }

    /// Mates this painting with `other`: of the two candidates that `crossed`
    /// describes, one is returned, picked by the toss of a fair coin.
    pub fn crossover(&self, other: &Painting) -> (child: Painting)
        ensures
            child@ == crossed(self@, other@, true) || child@ == crossed(self@, other@, false),
            child@.valid(),
            child@.width == self@.width,
            child@.height == self@.height,
            child@.target == self@.target,
            other@.strokes.len() == self@.strokes.len() ==> child@.strokes.len()
                == self@.strokes.len(),
    {
        let coin: u32 = random_u32();
        proof {
            lemma_crossed_count(self@, other@, coin % 2 == 1);
        }
        self.crossover_with(other, coin % 2 == 1)
    }

    /// Applies one round of mutation for each of `draws` to a copy of this
    /// painting, as `mutated` describes.
    pub fn mutate_with(&self, draws: &Vec<MutationDraw>) -> (changed: Painting)
        ensures
            changed@ == mutated(self@, draws@),
            changed@.valid(),
            changed@.strokes.len() == self@.strokes.len(),
            kept_parts(changed@.strokes) == kept_parts(self@.strokes),
    {
        let width = self.width();
        let height = self.height();
        let parent = self.strokes();
        let mut current: Vec<Stroke> = copy_strokes(parent);
        proof {
            lemma_mutated_keeps_parts(self@, draws@);
        }
        if parent.len() > 0 {
            let mut round: usize = 0;
            assert(draws@.take(0) =~= Seq::<MutationDraw>::empty());
            while round < draws.len()
                invariant
                    round <= draws.len(),
                    parent@ == self@.strokes,
                    self@.valid(),
                    width == self@.width,
                    height == self@.height,
                    parent@.len() > 0,
                    current@.len() == parent@.len(),
                    current.len() == parent.len(),
                    strokes_fit(current@, width as int, height as int),
                    current@ == after_rounds(
                        parent@,
                        draws@.take(round as int),
                        width as int,
                        height as int,
                    ),
                decreases draws.len() - round,
            {
                let draw = draws[round];
                let index: usize = draw.index % current.len();
                let stroke = perturb(current[index], draw, width, height);
                assert(draws@.take(round + 1).drop_last() =~= draws@.take(round as int));
                assert(draws@.take(round + 1).last() == draw);
                current.remove(index);
                current.push(stroke);
                round = round + 1;
            }
            assert(draws@.take(round as int) =~= draws@);
        }
        Painting::assemble(current, share(self.target()))
    }

    /// Mutates a copy of this painting: ten rounds, each on a stroke, a part
    /// of it and an amount that are drawn at random. Some ten draws give the
    /// result by `mutated`.
    pub fn mutate(&self) -> (changed: Painting)
        ensures
            exists|draws: Seq<MutationDraw>|
                draws.len() == MUTATION_ROUNDS && changed@ == #[trigger] mutated(self@, draws),
            changed@.valid(),
            changed@.strokes.len() == self@.strokes.len(),
            kept_parts(changed@.strokes) == kept_parts(self@.strokes),
    {
        let mut draws: Vec<MutationDraw> = Vec::new();
        while draws.len() < MUTATION_ROUNDS
            invariant
                draws.len() <= MUTATION_ROUNDS,
            decreases MUTATION_ROUNDS - draws.len(),
        {
            let draw = MutationDraw {
                index: random_usize(),
                kind: random_u32(),
                first: random_u32(),
                second: random_u32(),
            };
            draws.push(draw);
        }
        self.mutate_with(&draws)
    }
}

} // verus!
