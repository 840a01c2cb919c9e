//! What a flood fill paints: the background pixels joined to its seed.

use vstd::prelude::*;
use crate::common::PosU8;
use crate::common::VIEWPORT_HEIGHT;
use crate::common::VIEWPORT_WIDTH;
use crate::fill::all_edges;
use crate::fill::fill_measure;
use crate::fill::fill_run;
use crate::fill::fill_start;
use crate::fill::fill_step;
use crate::fill::flood_fill;
use crate::fill::lemma_fill_step_decreases;
use crate::fill::neighbours;
use crate::fill::with_border;
use crate::fill::FillEdge;
use crate::fill::FillState;
use crate::palette::lemma_palette_distinct;
use crate::palette::palette;
use crate::palette::Rgb;
use crate::pixel_buffer::in_viewport;
use crate::pixel_buffer::pixel_index;
use crate::pixel_buffer::BufferModel;
use crate::pixel_buffer::InstructionIndex;

verus! {

/// Whether a fill may paint `(x, y)`: it lies on the surface and has the
/// background colour.
pub open spec fn fillable(b: BufferModel, background: Rgb, x: int, y: int) -> bool {
    in_viewport(x, y) && b.color_at(x, y) == background
}

/// Whether `(x, y)` is joined to the seed by at most `steps` moves to a
/// neighbour on the right, on the left, below or above, over pixels that
/// a fill may paint.
pub open spec fn reached_within(
    b: BufferModel,
    background: Rgb,
    seed: PosU8,
    x: int,
    y: int,
    steps: nat,
) -> bool
    decreases steps,
{
    fillable(b, background, x, y) && ((x == seed.x && y == seed.y) || (steps > 0 && (
        reached_within(b, background, seed, x + 1, y, (steps - 1) as nat)
        || reached_within(b, background, seed, x - 1, y, (steps - 1) as nat)
        || reached_within(b, background, seed, x, y + 1, (steps - 1) as nat)
        || reached_within(b, background, seed, x, y - 1, (steps - 1) as nat))))
}

/// Whether `(x, y)` belongs to the region of the seed: the background
/// pixels joined to it.
pub open spec fn reached(b: BufferModel, background: Rgb, seed: PosU8, x: int, y: int) -> bool {
    exists|steps: nat| reached_within(b, background, seed, x, y, steps)
}

// ---------------------------------------------------------------------
// What holds while a fill runs
// ---------------------------------------------------------------------

spec fn painted(b0: BufferModel, s: FillState, background: Rgb, x: int, y: int) -> bool {
    in_viewport(x, y) && b0.color_at(x, y) == background && s.buffer.color_at(x, y) != background
}

spec fn covered(s: FillState, background: Rgb, x: int, y: int) -> bool {
    !in_viewport(x, y) || s.buffer.color_at(x, y) != background || s.queue.contains(
        (x as usize, y as usize),
    )
}

spec fn kept(b0: BufferModel, s: FillState, x: int, y: int) -> bool {
    s.buffer.color_at(x, y) == b0.color_at(x, y) && s.buffer.tag_at(x, y) == b0.tag_at(x, y)
}

spec fn filled(
    b0: BufferModel,
    seed: PosU8,
    s: FillState,
    color: Rgb,
    background: Rgb,
    tag: InstructionIndex,
    x: int,
    y: int,
) -> bool {
    b0.color_at(x, y) == background && s.buffer.color_at(x, y) == color && s.buffer.tag_at(x, y)
        == Some(tag) && reached(b0, background, seed, x, y)
}

spec fn waiting_ok(b0: BufferModel, seed: PosU8, s: FillState, background: Rgb, j: int) -> bool {
    let x = s.queue[j].0 as int;
    let y = s.queue[j].1 as int;
    in_viewport(x, y) && (fillable(b0, background, x, y) ==> reached(b0, background, seed, x, y))
}

spec fn around_covered(s: FillState, background: Rgb, x: int, y: int) -> bool {
    covered(s, background, x + 1, y) && covered(s, background, x - 1, y) && covered(
        s,
        background,
        x,
        y + 1,
    ) && covered(s, background, x, y - 1)
}

spec fn fill_inv(
    b0: BufferModel,
    seed: PosU8,
    s: FillState,
    color: Rgb,
    background: Rgb,
    tag: InstructionIndex,
) -> bool {
    &&& b0.wf()
    &&& s.buffer.wf()
    &&& color != background
    &&& in_viewport(seed.x as int, seed.y as int)
    &&& forall|j: int| 0 <= j < s.queue.len() ==> #[trigger] waiting_ok(b0, seed, s, background, j)
    &&& forall|x: int, y: int|
        in_viewport(x, y) ==> #[trigger] kept(b0, s, x, y) || filled(
            b0,
            seed,
            s,
            color,
            background,
            tag,
            x,
            y,
        )
    &&& covered(s, background, seed.x as int, seed.y as int)
    &&& forall|x: int, y: int| #[trigger]
        painted(b0, s, background, x, y) ==> around_covered(s, background, x, y)
}

proof fn lemma_plot_at(b: BufferModel, x0: int, y0: int, c: Rgb, t: InstructionIndex, x: int, y: int)
    requires
        b.wf(),
        in_viewport(x0, y0),
        in_viewport(x, y),
    ensures
        b.plot(x0, y0, c, t).wf(),
        x == x0 && y == y0 ==> b.plot(x0, y0, c, t).color_at(x, y) == c && b.plot(
            x0,
            y0,
            c,
            t,
        ).tag_at(x, y) == Some(t),
        !(x == x0 && y == y0) ==> b.plot(x0, y0, c, t).color_at(x, y) == b.color_at(x, y) && b.plot(
            x0,
            y0,
            c,
            t,
        ).tag_at(x, y) == b.tag_at(x, y),
{
    assert(pixel_index(x, y) == pixel_index(x0, y0) ==> x == x0 && y == y0);
}

proof fn lemma_neighbours(x: usize, y: usize)
    requires
        in_viewport(x as int, y as int),
    ensures
        neighbours(x, y).len() <= 4,
        forall|k: int|
            0 <= k < neighbours(x, y).len() ==> {
                let a = (#[trigger] neighbours(x, y)[k]).0 as int;
                let b = neighbours(x, y)[k].1 as int;
                in_viewport(a, b) && ((a == x + 1 && b == y) || (a == x - 1 && b == y) || (a == x
                    && b == y + 1) || (a == x && b == y - 1))
            },
        in_viewport(x + 1, y as int) ==> neighbours(x, y).contains(((x + 1) as usize, y)),
        in_viewport(x - 1, y as int) ==> neighbours(x, y).contains(((x - 1) as usize, y)),
        in_viewport(x as int, y + 1) ==> neighbours(x, y).contains((x, (y + 1) as usize)),
        in_viewport(x as int, y - 1) ==> neighbours(x, y).contains((x, (y - 1) as usize)),
{
    let right: Seq<(usize, usize)> = if x < VIEWPORT_WIDTH - 1 {
        seq![((x + 1) as usize, y)]
    } else {
        Seq::empty()
    };
    let left: Seq<(usize, usize)> = if x > 0 {
        seq![((x - 1) as usize, y)]
    } else {
        Seq::empty()
    };
    let below: Seq<(usize, usize)> = if y < VIEWPORT_HEIGHT - 1 {
        seq![(x, (y + 1) as usize)]
    } else {
        Seq::empty()
    };
    let above: Seq<(usize, usize)> = if y > 0 {
        seq![(x, (y - 1) as usize)]
    } else {
        Seq::empty()
    };
    let n = neighbours(x, y);
    assert(n == right + left + below + above);
    if x < VIEWPORT_WIDTH - 1 {
        assert(n[0] == ((x + 1) as usize, y));
    }
    if x > 0 {
        assert(n[right.len() as int] == ((x - 1) as usize, y));
    }
    if y < VIEWPORT_HEIGHT - 1 {
        assert(n[(right.len() + left.len()) as int] == (x, (y + 1) as usize));
    }
    if y > 0 {
        assert(n[(right.len() + left.len() + below.len()) as int] == (x, (y - 1) as usize));
    }
}

proof fn lemma_queue_keeps(queue: Seq<(usize, usize)>, more: Seq<(usize, usize)>, v: (usize, usize))
    requires
        queue.len() > 0,
        queue.contains(v),
        queue[0] != v,
    ensures
        (queue.subrange(1, queue.len() as int) + more).contains(v),
{
    let i = choose|i: int| 0 <= i < queue.len() && queue[i] == v;
    let after = queue.subrange(1, queue.len() as int) + more;
    assert(after[i - 1] == v);
}

proof fn lemma_queue_gains(rest: Seq<(usize, usize)>, more: Seq<(usize, usize)>, v: (usize, usize))
    requires
        more.contains(v),
    ensures
        (rest + more).contains(v),
{
    let i = choose|i: int| 0 <= i < more.len() && more[i] == v;
    assert((rest + more)[(rest.len() + i) as int] == v);
}

/// What was fillable before the step and is joined to a reached pixel is reached.
proof fn lemma_reached_next(b: BufferModel, background: Rgb, seed: PosU8, x: int, y: int, x2: int, y2: int)
    requires
        reached(b, background, seed, x, y),
        fillable(b, background, x2, y2),
        (x2 == x + 1 && y2 == y) || (x2 == x - 1 && y2 == y) || (x2 == x && y2 == y + 1) || (x2
            == x && y2 == y - 1),
    ensures
        reached(b, background, seed, x2, y2),
{
    let steps = choose|steps: nat| reached_within(b, background, seed, x, y, steps);
    assert(reached_within(b, background, seed, x2, y2, steps + 1));
}

proof fn lemma_fill_start_inv(b0: BufferModel, seed: PosU8, color: Rgb, background: Rgb, tag: InstructionIndex)
    requires
        b0.wf(),
        color != background,
        in_viewport(seed.x as int, seed.y as int),
    ensures
        fill_inv(b0, seed, fill_start(b0, seed), color, background, tag),
{
    let s = fill_start(b0, seed);
    assert(s.queue[0] == (seed.x as usize, seed.y as usize));
    if fillable(b0, background, seed.x as int, seed.y as int) {
        assert(reached_within(b0, background, seed, seed.x as int, seed.y as int, 0));
    }
    assert(waiting_ok(b0, seed, s, background, 0));
    assert forall|x: int, y: int| in_viewport(x, y) implies #[trigger] kept(b0, s, x, y) by {}
}

proof fn lemma_covered_step(
    s: FillState,
    color: Rgb,
    background: Rgb,
    tag: InstructionIndex,
    x: int,
    y: int,
)
    requires
        s.buffer.wf(),
        color != background,
        s.queue.len() > 0,
        in_viewport(s.queue[0].0 as int, s.queue[0].1 as int),
        covered(s, background, x, y),
    ensures
        covered(fill_step(s, color, background, tag), background, x, y),
{
    let x0 = s.queue[0].0;
    let y0 = s.queue[0].1;
    let s2 = fill_step(s, color, background, tag);
    if in_viewport(x, y) {
        lemma_plot_at(s.buffer, x0 as int, y0 as int, color, tag, x, y);
        if s.buffer.color_at(x, y) != background {
        } else {
            let v = (x as usize, y as usize);
            assert(s.queue.contains(v));
            if s.queue[0] == v {
                assert(s2.buffer.color_at(x, y) == color);
            } else {
                if s.buffer.color_at(x0 as int, y0 as int) == background {
                    lemma_queue_keeps(s.queue, neighbours(x0, y0), v);
                } else {
                    lemma_queue_keeps(s.queue, Seq::empty(), v);
                    assert(s.queue.subrange(1, s.queue.len() as int) + Seq::<(usize, usize)>::empty()
                        == s.queue.subrange(1, s.queue.len() as int));
                }
            }
        }
    }
}

proof fn lemma_fill_step_inv(
    b0: BufferModel,
    seed: PosU8,
    s: FillState,
    color: Rgb,
    background: Rgb,
    tag: InstructionIndex,
)
    requires
        fill_inv(b0, seed, s, color, background, tag),
        s.queue.len() > 0,
    ensures
        fill_inv(b0, seed, fill_step(s, color, background, tag), color, background, tag),
{
    let x0 = s.queue[0].0;
    let y0 = s.queue[0].1;
    let s2 = fill_step(s, color, background, tag);
    let rest = s.queue.subrange(1, s.queue.len() as int);
    let paints = s.buffer.color_at(x0 as int, y0 as int) == background;
    assert(waiting_ok(b0, seed, s, background, 0));
    lemma_neighbours(x0, y0);
    lemma_plot_at(s.buffer, x0 as int, y0 as int, color, tag, x0 as int, y0 as int);
    assert(kept(b0, s, x0 as int, y0 as int) || filled(
        b0,
        seed,
        s,
        color,
        background,
        tag,
        x0 as int,
        y0 as int,
    ));
    if paints {
        assert(fillable(b0, background, x0 as int, y0 as int));
        assert(reached(b0, background, seed, x0 as int, y0 as int));
    }
    // The pixels that wait.
    assert forall|j: int| 0 <= j < s2.queue.len() implies #[trigger] waiting_ok(
        b0,
        seed,
        s2,
        background,
        j,
    ) by {
        if j < rest.len() {
            assert(s2.queue[j] == s.queue[j + 1]);
            assert(waiting_ok(b0, seed, s, background, j + 1));
        } else {
            let k = j - rest.len();
            assert(s2.queue[j] == neighbours(x0, y0)[k]);
            let a = neighbours(x0, y0)[k].0 as int;
            let b = neighbours(x0, y0)[k].1 as int;
            if fillable(b0, background, a, b) {
                lemma_reached_next(b0, background, seed, x0 as int, y0 as int, a, b);
            }
        }
    }
    // Every pixel is as it was or belongs to the fill.
    assert forall|x: int, y: int| in_viewport(x, y) implies #[trigger] kept(b0, s2, x, y) || filled(
        b0,
        seed,
        s2,
        color,
        background,
        tag,
        x,
        y,
    ) by {
        lemma_plot_at(s.buffer, x0 as int, y0 as int, color, tag, x, y);
        assert(kept(b0, s, x, y) || filled(b0, seed, s, color, background, tag, x, y));
    }
    // The seed.
    lemma_covered_step(s, color, background, tag, seed.x as int, seed.y as int);
    // Around what is painted.
    assert forall|x: int, y: int| #[trigger] painted(b0, s2, background, x, y) implies around_covered(
        s2,
        background,
        x,
        y,
    ) by {
        lemma_plot_at(s.buffer, x0 as int, y0 as int, color, tag, x, y);
        if painted(b0, s, background, x, y) {
            assert(around_covered(s, background, x, y));
            lemma_covered_step(s, color, background, tag, x + 1, y);
            lemma_covered_step(s, color, background, tag, x - 1, y);
            lemma_covered_step(s, color, background, tag, x, y + 1);
            lemma_covered_step(s, color, background, tag, x, y - 1);
        } else {
            assert(x == x0 && y == y0 && paints);
            if in_viewport(x + 1, y) {
                lemma_queue_gains(rest, neighbours(x0, y0), ((x + 1) as usize, y as usize));
            }
            if in_viewport(x - 1, y) {
                lemma_queue_gains(rest, neighbours(x0, y0), ((x - 1) as usize, y as usize));
            }
            if in_viewport(x, y + 1) {
                lemma_queue_gains(rest, neighbours(x0, y0), (x as usize, (y + 1) as usize));
            }
            if in_viewport(x, y - 1) {
                lemma_queue_gains(rest, neighbours(x0, y0), (x as usize, (y - 1) as usize));
            }
        }
    }
}

proof fn lemma_fill_run_inv(
    b0: BufferModel,
    seed: PosU8,
    s: FillState,
    color: Rgb,
    background: Rgb,
    tag: InstructionIndex,
)
    requires
        fill_inv(b0, seed, s, color, background, tag),
    ensures
        fill_inv(b0, seed, fill_run(s, color, background, tag), color, background, tag),
        fill_run(s, color, background, tag).queue.len() == 0,
    decreases fill_measure(s, background),
{
    if s.queue.len() > 0 {
        lemma_fill_step_decreases(s, color, background, tag);
        lemma_fill_step_inv(b0, seed, s, color, background, tag);
        lemma_fill_run_inv(b0, seed, fill_step(s, color, background, tag), color, background, tag);
    }
}

proof fn lemma_reached_is_painted(
    b0: BufferModel,
    seed: PosU8,
    s: FillState,
    color: Rgb,
    background: Rgb,
    tag: InstructionIndex,
    x: int,
    y: int,
    steps: nat,
)
    requires
        fill_inv(b0, seed, s, color, background, tag),
        s.queue.len() == 0,
        reached_within(b0, background, seed, x, y, steps),
    ensures
        painted(b0, s, background, x, y),
    decreases steps,
{
    if x == seed.x && y == seed.y {
    } else {
        let before = (steps - 1) as nat;
        if reached_within(b0, background, seed, x + 1, y, before) {
            lemma_reached_is_painted(b0, seed, s, color, background, tag, x + 1, y, before);
            assert(around_covered(s, background, x + 1, y));
        } else if reached_within(b0, background, seed, x - 1, y, before) {
            lemma_reached_is_painted(b0, seed, s, color, background, tag, x - 1, y, before);
            assert(around_covered(s, background, x - 1, y));
        } else if reached_within(b0, background, seed, x, y + 1, before) {
            lemma_reached_is_painted(b0, seed, s, color, background, tag, x, y + 1, before);
            assert(around_covered(s, background, x, y + 1));
        } else {
            lemma_reached_is_painted(b0, seed, s, color, background, tag, x, y - 1, before);
            assert(around_covered(s, background, x, y - 1));
        }
    }
}

proof fn lemma_fill_end_at(
    b0: BufferModel,
    seed: PosU8,
    s: FillState,
    color: Rgb,
    background: Rgb,
    tag: InstructionIndex,
    x: int,
    y: int,
)
    requires
        fill_inv(b0, seed, s, color, background, tag),
        s.queue.len() == 0,
        in_viewport(x, y),
    ensures
        reached(b0, background, seed, x, y) ==> s.buffer.color_at(x, y) == color
            && s.buffer.tag_at(x, y) == Some(tag),
        !reached(b0, background, seed, x, y) ==> s.buffer.color_at(x, y) == b0.color_at(x, y)
            && s.buffer.tag_at(x, y) == b0.tag_at(x, y),
{
    assert(kept(b0, s, x, y) || filled(b0, seed, s, color, background, tag, x, y));
    if reached(b0, background, seed, x, y) {
        let steps = choose|steps: nat| reached_within(b0, background, seed, x, y, steps);
        lemma_reached_is_painted(b0, seed, s, color, background, tag, x, y, steps);
    }
}

/// A fill paints exactly the region of its seed, tags every pixel of it,
/// and leaves every other pixel of the surface as it was. The buffer
/// keeps its size: nothing is written off the surface.
pub proof fn lemma_fill_paints_region(
    buffer: BufferModel,
    seed: PosU8,
    color: u8,
    background: u8,
    tag: InstructionIndex,
)
    requires
        buffer.wf(),
        color != background,
        color <= 0x0F || background <= 0x0F,
        in_viewport(seed.x as int, seed.y as int),
    ensures
        flood_fill(buffer, seed, color, background, tag).fault is None,
        flood_fill(buffer, seed, color, background, tag).buffer.wf(),
        forall|x: int, y: int|
            in_viewport(x, y) ==> (#[trigger] flood_fill(
                buffer,
                seed,
                color,
                background,
                tag,
            ).buffer.color_at(x, y)) == (if reached(buffer, palette(background), seed, x, y) {
                palette(color)
            } else {
                buffer.color_at(x, y)
            }),
        forall|x: int, y: int|
            in_viewport(x, y) ==> (#[trigger] flood_fill(
                buffer,
                seed,
                color,
                background,
                tag,
            ).buffer.tag_at(x, y)) == (if reached(buffer, palette(background), seed, x, y) {
                Some(tag)
            } else {
                buffer.tag_at(x, y)
            }),
{
    let paint = palette(color);
    let ground = palette(background);
    lemma_palette_distinct(color, background);
    let start = fill_start(buffer, seed);
    let end = fill_run(start, paint, ground, tag);
    lemma_fill_start_inv(buffer, seed, paint, ground, tag);
    lemma_fill_run_inv(buffer, seed, start, paint, ground, tag);
    assert(flood_fill(buffer, seed, color, background, tag).buffer == end.buffer);
    assert forall|x: int, y: int| in_viewport(x, y) implies (#[trigger] end.buffer.color_at(x, y))
        == (if reached(buffer, ground, seed, x, y) {
        paint
    } else {
        buffer.color_at(x, y)
    }) by {
        lemma_fill_end_at(buffer, seed, end, paint, ground, tag, x, y);
    }
    assert forall|x: int, y: int| in_viewport(x, y) implies (#[trigger] end.buffer.tag_at(x, y))
        == (if reached(buffer, ground, seed, x, y) {
        Some(tag)
    } else {
        buffer.tag_at(x, y)
    }) by {
        lemma_fill_end_at(buffer, seed, end, paint, ground, tag, x, y);
    }
}

// ---------------------------------------------------------------------
// What a fill notes
// ---------------------------------------------------------------------

/// Whether `(x, y)` is the seed or has a neighbour in the region of the
/// seed.
pub open spec fn beside_region(b: BufferModel, background: Rgb, seed: PosU8, x: int, y: int) -> bool {
    (x == seed.x && y == seed.y) || reached(b, background, seed, x + 1, y) || reached(
        b,
        background,
        seed,
        x - 1,
        y,
    ) || reached(b, background, seed, x, y + 1) || reached(b, background, seed, x, y - 1)
}

/// Whether the fill for instruction `base` meets the tag `t` at `(x, y)`:
/// the pixel lies on the surface beside the region, does not have the
/// background colour, and another instruction than `base` drew it.
pub open spec fn met_at(
    b: BufferModel,
    background: Rgb,
    seed: PosU8,
    base: usize,
    t: InstructionIndex,
    x: int,
    y: int,
) -> bool {
    in_viewport(x, y) && b.color_at(x, y) != background && b.tag_at(x, y) == Some(t)
        && t.base_index != base && beside_region(b, background, seed, x, y)
}

/// Whether the fill for instruction `base` meets the tag `t` anywhere.
pub open spec fn met(b: BufferModel, background: Rgb, seed: PosU8, base: usize, t: InstructionIndex) -> bool {
    exists|x: int, y: int| met_at(b, background, seed, base, t, x, y)
}

/// Whether the region of the seed has a pixel in row `y`.
pub open spec fn region_in_row(b: BufferModel, background: Rgb, seed: PosU8, y: int) -> bool {
    exists|x: int| reached(b, background, seed, x, y)
}

/// Whether the region of the seed has a pixel in column `x`.
pub open spec fn region_in_column(b: BufferModel, background: Rgb, seed: PosU8, x: int) -> bool {
    exists|y: int| reached(b, background, seed, x, y)
}

/// No edge stands twice among the edges.
pub open spec fn edges_distinct(edges: Seq<FillEdge>) -> bool {
    forall|i: int, j: int| 0 <= i < j < edges.len() ==> edges[i] != edges[j]
}

spec fn near_painted(b0: BufferModel, s: FillState, background: Rgb, seed: PosU8, x: int, y: int) -> bool {
    (x == seed.x && y == seed.y) || painted(b0, s, background, x + 1, y) || painted(
        b0,
        s,
        background,
        x - 1,
        y,
    ) || painted(b0, s, background, x, y + 1) || painted(b0, s, background, x, y - 1)
}

spec fn waiting_near(b0: BufferModel, seed: PosU8, s: FillState, background: Rgb, j: int) -> bool {
    near_painted(b0, s, background, seed, s.queue[j].0 as int, s.queue[j].1 as int)
}

spec fn edge_ok(b0: BufferModel, seed: PosU8, background: Rgb, base: usize, e: FillEdge) -> bool {
    e is Line && met(b0, background, seed, base, e->Line_0)
}

spec fn noted(
    b0: BufferModel,
    seed: PosU8,
    s: FillState,
    background: Rgb,
    base: usize,
    x: int,
    y: int,
) -> bool {
    (in_viewport(x, y) && b0.color_at(x, y) != background && near_painted(
        b0,
        s,
        background,
        seed,
        x,
        y,
    ) && b0.tag_at(x, y) is Some && b0.tag_at(x, y)->0.base_index != base) ==> (s.edges.contains(
        FillEdge::Line(b0.tag_at(x, y)->0),
    ) || s.queue.contains((x as usize, y as usize)))
}

spec fn row_painted(b0: BufferModel, s: FillState, background: Rgb, y: int) -> bool {
    exists|x: int| painted(b0, s, background, x, y)
}

spec fn column_painted(b0: BufferModel, s: FillState, background: Rgb, x: int) -> bool {
    exists|y: int| painted(b0, s, background, x, y)
}

spec fn edge_inv(b0: BufferModel, seed: PosU8, s: FillState, background: Rgb, base: usize) -> bool {
    &&& forall|j: int| 0 <= j < s.queue.len() ==> #[trigger] waiting_near(b0, seed, s, background, j)
    &&& forall|j: int|
        0 <= j < s.edges.len() ==> edge_ok(b0, seed, background, base, #[trigger] s.edges[j])
    &&& edges_distinct(s.edges)
    &&& forall|x: int, y: int| #[trigger] noted(b0, seed, s, background, base, x, y)
    &&& s.top == row_painted(b0, s, background, 0)
    &&& s.bottom == row_painted(b0, s, background, VIEWPORT_HEIGHT - 1)
    &&& s.left == column_painted(b0, s, background, 0)
    &&& s.right == column_painted(b0, s, background, VIEWPORT_WIDTH - 1)
}

proof fn lemma_painted_is_reached(
    b0: BufferModel,
    seed: PosU8,
    s: FillState,
    color: Rgb,
    background: Rgb,
    tag: InstructionIndex,
    x: int,
    y: int,
)
    requires
        fill_inv(b0, seed, s, color, background, tag),
        painted(b0, s, background, x, y),
    ensures
        reached(b0, background, seed, x, y),
{
    assert(kept(b0, s, x, y) || filled(b0, seed, s, color, background, tag, x, y));
}

proof fn lemma_near_is_beside(
    b0: BufferModel,
    seed: PosU8,
    s: FillState,
    color: Rgb,
    background: Rgb,
    tag: InstructionIndex,
    x: int,
    y: int,
)
    requires
        fill_inv(b0, seed, s, color, background, tag),
        near_painted(b0, s, background, seed, x, y),
    ensures
        beside_region(b0, background, seed, x, y),
{
    if painted(b0, s, background, x + 1, y) {
        lemma_painted_is_reached(b0, seed, s, color, background, tag, x + 1, y);
    }
    if painted(b0, s, background, x - 1, y) {
        lemma_painted_is_reached(b0, seed, s, color, background, tag, x - 1, y);
    }
    if painted(b0, s, background, x, y + 1) {
        lemma_painted_is_reached(b0, seed, s, color, background, tag, x, y + 1);
    }
    if painted(b0, s, background, x, y - 1) {
        lemma_painted_is_reached(b0, seed, s, color, background, tag, x, y - 1);
    }
}

/// What is painted stays painted, and a step paints at most the pixel it
/// looks at.
proof fn lemma_painted_step(
    b0: BufferModel,
    s: FillState,
    color: Rgb,
    background: Rgb,
    tag: InstructionIndex,
    x: int,
    y: int,
)
    requires
        s.buffer.wf(),
        color != background,
        s.queue.len() > 0,
        in_viewport(s.queue[0].0 as int, s.queue[0].1 as int),
    ensures
        painted(b0, s, background, x, y) ==> painted(
            b0,
            fill_step(s, color, background, tag),
            background,
            x,
            y,
        ),
        painted(b0, fill_step(s, color, background, tag), background, x, y) ==> painted(
            b0,
            s,
            background,
            x,
            y,
        ) || (x == s.queue[0].0 && y == s.queue[0].1 && s.buffer.color_at(x, y) == background),
{
    if in_viewport(x, y) {
        lemma_plot_at(s.buffer, s.queue[0].0 as int, s.queue[0].1 as int, color, tag, x, y);
    }
}

proof fn lemma_near_step(
    b0: BufferModel,
    seed: PosU8,
    s: FillState,
    color: Rgb,
    background: Rgb,
    tag: InstructionIndex,
    x: int,
    y: int,
)
    requires
        s.buffer.wf(),
        color != background,
        s.queue.len() > 0,
        in_viewport(s.queue[0].0 as int, s.queue[0].1 as int),
        near_painted(b0, s, background, seed, x, y),
    ensures
        near_painted(b0, fill_step(s, color, background, tag), background, seed, x, y),
{
    lemma_painted_step(b0, s, color, background, tag, x + 1, y);
    lemma_painted_step(b0, s, color, background, tag, x - 1, y);
    lemma_painted_step(b0, s, color, background, tag, x, y + 1);
    lemma_painted_step(b0, s, color, background, tag, x, y - 1);
}

proof fn lemma_row_step(
    b0: BufferModel,
    s: FillState,
    color: Rgb,
    background: Rgb,
    tag: InstructionIndex,
    y: int,
)
    requires
        b0.wf(),
        s.buffer.wf(),
        color != background,
        s.queue.len() > 0,
        in_viewport(s.queue[0].0 as int, s.queue[0].1 as int),
        s.buffer.color_at(s.queue[0].0 as int, s.queue[0].1 as int) == background ==> b0.color_at(
            s.queue[0].0 as int,
            s.queue[0].1 as int,
        ) == background,
    ensures
        row_painted(b0, fill_step(s, color, background, tag), background, y) == (row_painted(
            b0,
            s,
            background,
            y,
        ) || (s.queue[0].1 == y && s.buffer.color_at(s.queue[0].0 as int, s.queue[0].1 as int)
            == background)),
{
    let s2 = fill_step(s, color, background, tag);
    let x0 = s.queue[0].0 as int;
    let y0 = s.queue[0].1 as int;
    if row_painted(b0, s, background, y) {
        let x = choose|x: int| painted(b0, s, background, x, y);
        lemma_painted_step(b0, s, color, background, tag, x, y);
        assert(painted(b0, s2, background, x, y));
    }
    if y0 == y && s.buffer.color_at(x0, y0) == background {
        lemma_plot_at(s.buffer, x0, y0, color, tag, x0, y0);
        assert(painted(b0, s2, background, x0, y));
    }
    if row_painted(b0, s2, background, y) {
        let x = choose|x: int| painted(b0, s2, background, x, y);
        lemma_painted_step(b0, s, color, background, tag, x, y);
        if painted(b0, s, background, x, y) {
            assert(row_painted(b0, s, background, y));
        }
    }
}

proof fn lemma_column_step(
    b0: BufferModel,
    s: FillState,
    color: Rgb,
    background: Rgb,
    tag: InstructionIndex,
    x: int,
)
    requires
        b0.wf(),
        s.buffer.wf(),
        color != background,
        s.queue.len() > 0,
        in_viewport(s.queue[0].0 as int, s.queue[0].1 as int),
        s.buffer.color_at(s.queue[0].0 as int, s.queue[0].1 as int) == background ==> b0.color_at(
            s.queue[0].0 as int,
            s.queue[0].1 as int,
        ) == background,
    ensures
        column_painted(b0, fill_step(s, color, background, tag), background, x) == (column_painted(
            b0,
            s,
            background,
            x,
        ) || (s.queue[0].0 == x && s.buffer.color_at(s.queue[0].0 as int, s.queue[0].1 as int)
            == background)),
{
    let s2 = fill_step(s, color, background, tag);
    let x0 = s.queue[0].0 as int;
    let y0 = s.queue[0].1 as int;
    if column_painted(b0, s, background, x) {
        let y = choose|y: int| painted(b0, s, background, x, y);
        lemma_painted_step(b0, s, color, background, tag, x, y);
        assert(painted(b0, s2, background, x, y));
    }
    if x0 == x && s.buffer.color_at(x0, y0) == background {
        lemma_plot_at(s.buffer, x0, y0, color, tag, x0, y0);
        assert(painted(b0, s2, background, x, y0));
    }
    if column_painted(b0, s2, background, x) {
        let y = choose|y: int| painted(b0, s2, background, x, y);
        lemma_painted_step(b0, s, color, background, tag, x, y);
        if painted(b0, s, background, x, y) {
            assert(column_painted(b0, s, background, x));
        }
    }
}

proof fn lemma_push_contains(edges: Seq<FillEdge>, e: FillEdge, w: FillEdge)
    ensures
        edges.push(e).contains(w) == (edges.contains(w) || w == e),
{
    if edges.contains(w) {
        let i = choose|i: int| 0 <= i < edges.len() && edges[i] == w;
        assert(edges.push(e)[i] == w);
    }
    if w == e {
        assert(edges.push(e)[edges.len() as int] == w);
    }
    if edges.push(e).contains(w) {
        let i = choose|i: int| 0 <= i < edges.push(e).len() && edges.push(e)[i] == w;
        if i < edges.len() {
            assert(edges[i] == w);
        }
    }
}

proof fn lemma_push_distinct(edges: Seq<FillEdge>, e: FillEdge)
    requires
        edges_distinct(edges),
        !edges.contains(e),
    ensures
        edges_distinct(edges.push(e)),
{
    let after = edges.push(e);
    assert forall|i: int, j: int| 0 <= i < j < after.len() implies after[i] != after[j] by {
        if j == edges.len() {
            assert(edges[i] == after[i]);
        }
    }
}

proof fn lemma_edge_step_inv(
    b0: BufferModel,
    seed: PosU8,
    s: FillState,
    color: Rgb,
    background: Rgb,
    tag: InstructionIndex,
)
    requires
        fill_inv(b0, seed, s, color, background, tag),
        edge_inv(b0, seed, s, background, tag.base_index),
        s.queue.len() > 0,
    ensures
        edge_inv(b0, seed, fill_step(s, color, background, tag), background, tag.base_index),
{
    let base = tag.base_index;
    let x0 = s.queue[0].0;
    let y0 = s.queue[0].1;
    let s2 = fill_step(s, color, background, tag);
    let rest = s.queue.subrange(1, s.queue.len() as int);
    let paints = s.buffer.color_at(x0 as int, y0 as int) == background;
    assert(waiting_ok(b0, seed, s, background, 0));
    assert(waiting_near(b0, seed, s, background, 0));
    lemma_neighbours(x0, y0);
    lemma_plot_at(s.buffer, x0 as int, y0 as int, color, tag, x0 as int, y0 as int);
    assert(kept(b0, s, x0 as int, y0 as int) || filled(
        b0,
        seed,
        s,
        color,
        background,
        tag,
        x0 as int,
        y0 as int,
    ));
    let there = s.buffer.tag_at(x0 as int, y0 as int);
    // The pixels that wait are beside what is painted.
    assert forall|j: int| 0 <= j < s2.queue.len() implies #[trigger] waiting_near(
        b0,
        seed,
        s2,
        background,
        j,
    ) by {
        if j < rest.len() {
            assert(s2.queue[j] == s.queue[j + 1]);
            assert(waiting_near(b0, seed, s, background, j + 1));
            lemma_near_step(
                b0,
                seed,
                s,
                color,
                background,
                tag,
                s.queue[j + 1].0 as int,
                s.queue[j + 1].1 as int,
            );
        } else {
            let k = j - rest.len();
            assert(s2.queue[j] == neighbours(x0, y0)[k]);
            assert(painted(b0, s2, background, x0 as int, y0 as int));
        }
    }
    // The edges.
    if !paints && there is Some && there->0.base_index != base && !s.edges.contains(
        FillEdge::Line(there->0),
    ) {
        let e = FillEdge::Line(there->0);
        assert(s2.edges == s.edges.push(e));
        lemma_near_is_beside(b0, seed, s, color, background, tag, x0 as int, y0 as int);
        assert(met_at(b0, background, seed, base, there->0, x0 as int, y0 as int));
        assert(edge_ok(b0, seed, background, base, e));
        lemma_push_distinct(s.edges, e);
        assert forall|j: int| 0 <= j < s2.edges.len() implies edge_ok(
            b0,
            seed,
            background,
            base,
            #[trigger] s2.edges[j],
        ) by {
            if j < s.edges.len() {
                assert(s2.edges[j] == s.edges[j]);
            }
        }
    } else {
        assert(s2.edges == s.edges);
    }
    // What lies beside the painted pixels is noted or waits.
    assert forall|x: int, y: int| #[trigger] noted(b0, seed, s2, background, base, x, y) by {
        if in_viewport(x, y) && b0.color_at(x, y) != background && near_painted(
            b0,
            s2,
            background,
            seed,
            x,
            y,
        ) && b0.tag_at(x, y) is Some && b0.tag_at(x, y)->0.base_index != base {
            let t = b0.tag_at(x, y)->0;
            let v = (x as usize, y as usize);
            lemma_painted_step(b0, s, color, background, tag, x + 1, y);
            lemma_painted_step(b0, s, color, background, tag, x - 1, y);
            lemma_painted_step(b0, s, color, background, tag, x, y + 1);
            lemma_painted_step(b0, s, color, background, tag, x, y - 1);
            if near_painted(b0, s, background, seed, x, y) {
                assert(noted(b0, seed, s, background, base, x, y));
                if s.edges.contains(FillEdge::Line(t)) {
                    lemma_push_contains(s.edges, FillEdge::Line(there->0), FillEdge::Line(t));
                } else {
                    assert(s.queue.contains(v));
                    if s.queue[0] == v {
                        assert(kept(b0, s, x, y) || filled(b0, seed, s, color, background, tag, x, y));
                        assert(there == Some(t));
                        lemma_push_contains(s.edges, FillEdge::Line(t), FillEdge::Line(t));
                    } else if paints {
                        lemma_queue_keeps(s.queue, neighbours(x0, y0), v);
                    } else {
                        lemma_queue_keeps(s.queue, Seq::empty(), v);
                        assert(rest + Seq::<(usize, usize)>::empty() == rest);
                    }
                }
            } else {
                assert(paints);
                lemma_queue_gains(rest, neighbours(x0, y0), v);
            }
        }
    }
    // The borders.
    lemma_row_step(b0, s, color, background, tag, 0);
    lemma_row_step(b0, s, color, background, tag, VIEWPORT_HEIGHT - 1);
    lemma_column_step(b0, s, color, background, tag, 0);
    lemma_column_step(b0, s, color, background, tag, VIEWPORT_WIDTH - 1);
}

proof fn lemma_edge_start_inv(b0: BufferModel, seed: PosU8, background: Rgb, base: usize)
    requires
        b0.wf(),
        in_viewport(seed.x as int, seed.y as int),
    ensures
        edge_inv(b0, seed, fill_start(b0, seed), background, base),
{
    let s = fill_start(b0, seed);
    assert(s.queue[0] == (seed.x as usize, seed.y as usize));
    assert(waiting_near(b0, seed, s, background, 0));
    assert forall|x: int, y: int| #[trigger] noted(b0, seed, s, background, base, x, y) by {
        if near_painted(b0, s, background, seed, x, y) {
            assert(x == seed.x && y == seed.y);
            assert(s.queue[0] == (x as usize, y as usize));
        }
    }
}

proof fn lemma_edge_run_inv(
    b0: BufferModel,
    seed: PosU8,
    s: FillState,
    color: Rgb,
    background: Rgb,
    tag: InstructionIndex,
)
    requires
        fill_inv(b0, seed, s, color, background, tag),
        edge_inv(b0, seed, s, background, tag.base_index),
    ensures
        edge_inv(b0, seed, fill_run(s, color, background, tag), background, tag.base_index),
    decreases fill_measure(s, background),
{
    if s.queue.len() > 0 {
        lemma_fill_step_decreases(s, color, background, tag);
        lemma_fill_step_inv(b0, seed, s, color, background, tag);
        lemma_edge_step_inv(b0, seed, s, color, background, tag);
        lemma_edge_run_inv(b0, seed, fill_step(s, color, background, tag), color, background, tag);
    }
}

/// At the end of a fill, what is painted is the region of the seed.
proof fn lemma_painted_is_region(
    b0: BufferModel,
    seed: PosU8,
    s: FillState,
    color: Rgb,
    background: Rgb,
    tag: InstructionIndex,
    x: int,
    y: int,
)
    requires
        fill_inv(b0, seed, s, color, background, tag),
        s.queue.len() == 0,
    ensures
        painted(b0, s, background, x, y) == reached(b0, background, seed, x, y),
{
    if painted(b0, s, background, x, y) {
        lemma_painted_is_reached(b0, seed, s, color, background, tag, x, y);
    }
    if reached(b0, background, seed, x, y) {
        let steps = choose|steps: nat| reached_within(b0, background, seed, x, y, steps);
        lemma_reached_is_painted(b0, seed, s, color, background, tag, x, y, steps);
    }
}

proof fn lemma_with_border_law(edges: Seq<FillEdge>, there: bool, border: FillEdge, w: FillEdge)
    requires
        edges_distinct(edges),
        !edges.contains(border),
    ensures
        edges_distinct(with_border(edges, there, border)),
        with_border(edges, there, border).contains(w) == (edges.contains(w) || (there && w
            == border)),
{
    lemma_push_contains(edges, border, w);
    if there {
        lemma_push_distinct(edges, border);
    }
}

/// What a fill notes.
///
/// No edge is noted twice. A line is among the edges exactly if the fill
/// met its tag: on a pixel that another instruction drew and that is the
/// seed or lies beside the region. A border is among the edges exactly
/// if the region has a pixel on it.
pub proof fn lemma_fill_edges(
    buffer: BufferModel,
    seed: PosU8,
    color: u8,
    background: u8,
    tag: InstructionIndex,
)
    requires
        buffer.wf(),
        color != background,
        color <= 0x0F || background <= 0x0F,
        in_viewport(seed.x as int, seed.y as int),
    ensures
        edges_distinct(flood_fill(buffer, seed, color, background, tag).edges),
        forall|t: InstructionIndex|
            flood_fill(buffer, seed, color, background, tag).edges.contains(FillEdge::Line(t))
                == #[trigger] met(buffer, palette(background), seed, tag.base_index, t),
        flood_fill(buffer, seed, color, background, tag).edges.contains(FillEdge::TopBorder)
            == region_in_row(buffer, palette(background), seed, 0),
        flood_fill(buffer, seed, color, background, tag).edges.contains(FillEdge::BottomBorder)
            == region_in_row(buffer, palette(background), seed, VIEWPORT_HEIGHT - 1),
        flood_fill(buffer, seed, color, background, tag).edges.contains(FillEdge::LeftBorder)
            == region_in_column(buffer, palette(background), seed, 0),
        flood_fill(buffer, seed, color, background, tag).edges.contains(FillEdge::RightBorder)
            == region_in_column(buffer, palette(background), seed, VIEWPORT_WIDTH - 1),
{
    let paint = palette(color);
    let ground = palette(background);
    let base = tag.base_index;
    lemma_palette_distinct(color, background);
    let start = fill_start(buffer, seed);
    let end = fill_run(start, paint, ground, tag);
    lemma_fill_start_inv(buffer, seed, paint, ground, tag);
    lemma_edge_start_inv(buffer, seed, ground, base);
    lemma_fill_run_inv(buffer, seed, start, paint, ground, tag);
    lemma_edge_run_inv(buffer, seed, start, paint, ground, tag);
    let out = flood_fill(buffer, seed, color, background, tag);
    assert(out.edges == all_edges(end));
    let e0 = end.edges;
    let e1 = with_border(e0, end.top, FillEdge::TopBorder);
    let e2 = with_border(e1, end.right, FillEdge::RightBorder);
    let e3 = with_border(e2, end.bottom, FillEdge::BottomBorder);
    let e4 = with_border(e3, end.left, FillEdge::LeftBorder);
    assert(out.edges == e4);
    // Only lines stand among the edges that the run collected.
    assert forall|w: FillEdge| !(w is Line) implies !e0.contains(w) by {
        if e0.contains(w) {
            let i = choose|i: int| 0 <= i < e0.len() && e0[i] == w;
            assert(edge_ok(buffer, seed, ground, base, e0[i]));
        }
    }
    lemma_with_border_law(e0, end.top, FillEdge::TopBorder, FillEdge::TopBorder);
    lemma_with_border_law(e0, end.top, FillEdge::TopBorder, FillEdge::RightBorder);
    lemma_with_border_law(e0, end.top, FillEdge::TopBorder, FillEdge::BottomBorder);
    lemma_with_border_law(e0, end.top, FillEdge::TopBorder, FillEdge::LeftBorder);
    lemma_with_border_law(e1, end.right, FillEdge::RightBorder, FillEdge::TopBorder);
    lemma_with_border_law(e1, end.right, FillEdge::RightBorder, FillEdge::RightBorder);
    lemma_with_border_law(e1, end.right, FillEdge::RightBorder, FillEdge::BottomBorder);
    lemma_with_border_law(e1, end.right, FillEdge::RightBorder, FillEdge::LeftBorder);
    lemma_with_border_law(e2, end.bottom, FillEdge::BottomBorder, FillEdge::TopBorder);
    lemma_with_border_law(e2, end.bottom, FillEdge::BottomBorder, FillEdge::RightBorder);
    lemma_with_border_law(e2, end.bottom, FillEdge::BottomBorder, FillEdge::BottomBorder);
    lemma_with_border_law(e2, end.bottom, FillEdge::BottomBorder, FillEdge::LeftBorder);
    lemma_with_border_law(e3, end.left, FillEdge::LeftBorder, FillEdge::TopBorder);
    lemma_with_border_law(e3, end.left, FillEdge::LeftBorder, FillEdge::RightBorder);
    lemma_with_border_law(e3, end.left, FillEdge::LeftBorder, FillEdge::BottomBorder);
    lemma_with_border_law(e3, end.left, FillEdge::LeftBorder, FillEdge::LeftBorder);
    // The lines.
    assert forall|t: InstructionIndex|
        e4.contains(FillEdge::Line(t)) == #[trigger] met(buffer, ground, seed, base, t) by {
        let w = FillEdge::Line(t);
        lemma_with_border_law(e0, end.top, FillEdge::TopBorder, w);
        lemma_with_border_law(e1, end.right, FillEdge::RightBorder, w);
        lemma_with_border_law(e2, end.bottom, FillEdge::BottomBorder, w);
        lemma_with_border_law(e3, end.left, FillEdge::LeftBorder, w);
        assert(e4.contains(w) == e0.contains(w));
        if e0.contains(w) {
            let i = choose|i: int| 0 <= i < e0.len() && e0[i] == w;
            assert(edge_ok(buffer, seed, ground, base, e0[i]));
        }
        if met(buffer, ground, seed, base, t) {
            let (x, y) = choose|x: int, y: int| met_at(buffer, ground, seed, base, t, x, y);
            lemma_painted_is_region(buffer, seed, end, paint, ground, tag, x + 1, y);
            lemma_painted_is_region(buffer, seed, end, paint, ground, tag, x - 1, y);
            lemma_painted_is_region(buffer, seed, end, paint, ground, tag, x, y + 1);
            lemma_painted_is_region(buffer, seed, end, paint, ground, tag, x, y - 1);
            assert(noted(buffer, seed, end, ground, base, x, y));
        }
    }
    // The borders.
    lemma_rows_are_region(buffer, seed, end, paint, ground, tag, 0);
    lemma_rows_are_region(buffer, seed, end, paint, ground, tag, VIEWPORT_HEIGHT - 1);
    lemma_columns_are_region(buffer, seed, end, paint, ground, tag, 0);
    lemma_columns_are_region(buffer, seed, end, paint, ground, tag, VIEWPORT_WIDTH - 1);
}

proof fn lemma_rows_are_region(
    b0: BufferModel,
    seed: PosU8,
    s: FillState,
    color: Rgb,
    background: Rgb,
    tag: InstructionIndex,
    y: int,
)
    requires
        fill_inv(b0, seed, s, color, background, tag),
        s.queue.len() == 0,
    ensures
        row_painted(b0, s, background, y) == region_in_row(b0, background, seed, y),
{
    if row_painted(b0, s, background, y) {
        let x = choose|x: int| painted(b0, s, background, x, y);
        lemma_painted_is_region(b0, seed, s, color, background, tag, x, y);
    }
    if region_in_row(b0, background, seed, y) {
        let x = choose|x: int| reached(b0, background, seed, x, y);
        lemma_painted_is_region(b0, seed, s, color, background, tag, x, y);
    }
}

proof fn lemma_columns_are_region(
    b0: BufferModel,
    seed: PosU8,
    s: FillState,
    color: Rgb,
    background: Rgb,
    tag: InstructionIndex,
    x: int,
)
    requires
        fill_inv(b0, seed, s, color, background, tag),
        s.queue.len() == 0,
    ensures
        column_painted(b0, s, background, x) == region_in_column(b0, background, seed, x),
{
    if column_painted(b0, s, background, x) {
        let y = choose|y: int| painted(b0, s, background, x, y);
        lemma_painted_is_region(b0, seed, s, color, background, tag, x, y);
    }
    if region_in_column(b0, background, seed, x) {
        let y = choose|y: int| reached(b0, background, seed, x, y);
        lemma_painted_is_region(b0, seed, s, color, background, tag, x, y);
    }
}

} // verus!
