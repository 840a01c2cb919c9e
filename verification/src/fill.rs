//! Flood fill, and the record of what each fill touched.
//!
//! A fill starts at a point and spreads in the four directions over
//! pixels that still have the background colour of the buffer. It notes
//! which lines of other instructions it ran into and which borders of the
//! surface it reached; these edges serve to outline the fill and never
//! change a pixel.

use std::collections::VecDeque;
use vstd::prelude::*;
use crate::common::AgiError;
use crate::common::PosU8;
use crate::common::RenderFault;
use crate::common::PIC_BUFFER_BASE_COLOR;
use crate::common::PRI_BUFFER_BASE_COLOR;
use crate::common::VIEWPORT_HEIGHT;
use crate::common::VIEWPORT_PIXELS;
use crate::common::VIEWPORT_WIDTH;
use crate::fill_region::lemma_fill_paints_region;
use crate::fill_region::reached;
use crate::line::canvas_of;
use crate::line::fault_of;
use crate::line::Canvas;
use crate::palette::get_color;
use crate::palette::lemma_palette_distinct;
use crate::palette::palette;
use crate::palette::Rgb;
use crate::pic::PictureBufferType;
use crate::pixel_buffer::in_viewport;
use crate::pixel_buffer::pixel_index;
use crate::pixel_buffer::BufferModel;
use crate::pixel_buffer::InstructionIndex;
use crate::pixel_buffer::PixelBuffer;

verus! {

/// Something a fill ran into: a line that another instruction drew, or a
/// border of the surface.
#[derive(Debug, Copy, Clone, PartialEq, Eq, Structural)]
pub enum FillEdge {
    Line(InstructionIndex),
    TopBorder,
    RightBorder,
    BottomBorder,
    LeftBorder,
}

/// The background colour of a buffer: the colour it starts with and the
/// only colour that a fill spreads over.
pub open spec fn base_color(buffer_type: PictureBufferType) -> u8 {
    match buffer_type {
        PictureBufferType::Picture => PIC_BUFFER_BASE_COLOR,
        PictureBufferType::Priority => PRI_BUFFER_BASE_COLOR,
    }
}

// ---------------------------------------------------------------------
// The fill as a sequence of steps
// ---------------------------------------------------------------------

/// A fill under way: the buffer, the pixels waiting to be looked at, the
/// lines met so far and the borders reached so far.
pub ghost struct FillState {
    pub buffer: BufferModel,
    pub queue: Seq<(usize, usize)>,
    pub edges: Seq<FillEdge>,
    pub top: bool,
    pub right: bool,
    pub bottom: bool,
    pub left: bool,
}

/// The neighbours of `(x, y)` on the surface, in the order in which a
/// fill queues them: right, left, below, above.
pub open spec fn neighbours(x: usize, y: usize) -> Seq<(usize, usize)> {
    let right = if x < VIEWPORT_WIDTH - 1 {
        seq![((x + 1) as usize, y)]
    } else {
        Seq::empty()
    };
    let left = if x > 0 {
        seq![((x - 1) as usize, y)]
    } else {
        Seq::empty()
    };
    let below = if y < VIEWPORT_HEIGHT - 1 {
        seq![(x, (y + 1) as usize)]
    } else {
        Seq::empty()
    };
    let above = if y > 0 {
        seq![(x, (y - 1) as usize)]
    } else {
        Seq::empty()
    };
    right + left + below + above
}

/// The edges after meeting a pixel that `there` drew: a line of another
/// instruction than `base` is added unless it is already among them.
pub open spec fn touch(edges: Seq<FillEdge>, there: Option<InstructionIndex>, base: usize) -> Seq<
    FillEdge,
> {
    match there {
        Some(t) => if t.base_index != base && !edges.contains(FillEdge::Line(t)) {
            edges.push(FillEdge::Line(t))
        } else {
            edges
        },
        None => edges,
    }
}

/// One step of a fill: the first waiting pixel is looked at. If it has
/// the background colour it is painted and tagged, and its neighbours
/// wait in turn; otherwise what drew it is noted as an edge.
pub open spec fn fill_step(s: FillState, color: Rgb, background: Rgb, tag: InstructionIndex) -> FillState
    recommends
        s.queue.len() > 0,
{
    let x = s.queue[0].0;
    let y = s.queue[0].1;
    let rest = s.queue.subrange(1, s.queue.len() as int);
    if !in_viewport(x as int, y as int) {
        FillState { queue: rest, ..s }
    } else if s.buffer.color_at(x as int, y as int) == background {
        FillState {
            buffer: s.buffer.plot(x as int, y as int, color, tag),
            queue: rest + neighbours(x, y),
            edges: s.edges,
            top: s.top || y == 0,
            right: s.right || x == VIEWPORT_WIDTH - 1,
            bottom: s.bottom || y == VIEWPORT_HEIGHT - 1,
            left: s.left || x == 0,
        }
    } else {
        FillState {
            queue: rest,
            edges: touch(s.edges, s.buffer.tag_at(x as int, y as int), tag.base_index),
            ..s
        }
    }
}

/// Number of pixels of the colour `c`.
pub open spec fn count_color(pixels: Seq<Rgb>, c: Rgb) -> nat
    decreases pixels.len(),
{
    if pixels.len() == 0 {
        0
    } else {
        count_color(pixels.drop_last(), c) + if pixels.last() == c {
            1nat
        } else {
            0nat
        }
    }
}

/// Painting over a pixel of the colour `c` leaves one pixel fewer of it.
pub proof fn lemma_count_color_update(pixels: Seq<Rgb>, c: Rgb, i: int, d: Rgb)
    requires
        0 <= i < pixels.len(),
        pixels[i] == c,
        d != c,
    ensures
        count_color(pixels.update(i, d), c) + 1 == count_color(pixels, c),
    decreases pixels.len(),
{
    let after = pixels.update(i, d);
    if i == pixels.len() - 1 {
        assert(after.drop_last() == pixels.drop_last());
    } else {
        lemma_count_color_update(pixels.drop_last(), c, i, d);
        assert(after.drop_last() == pixels.drop_last().update(i, d));
    }
}

/// What bounds the steps a fill has left: every step either paints a
/// background pixel and queues at most four, or takes one from the queue.
pub open spec fn fill_measure(s: FillState, background: Rgb) -> nat {
    4 * count_color(s.buffer.pixels, background) + s.queue.len()
}

/// Every step of a fill brings it nearer to its end.
pub proof fn lemma_fill_step_decreases(s: FillState, color: Rgb, background: Rgb, tag: InstructionIndex)
    requires
        s.queue.len() > 0,
        color != background,
        s.buffer.wf(),
    ensures
        fill_measure(fill_step(s, color, background, tag), background) < fill_measure(s, background),
        fill_step(s, color, background, tag).buffer.wf(),
{
    let x = s.queue[0].0;
    let y = s.queue[0].1;
    if in_viewport(x as int, y as int) && s.buffer.color_at(x as int, y as int) == background {
        lemma_count_color_update(s.buffer.pixels, background, y * VIEWPORT_WIDTH + x, color);
    }
}

/// A fill run to its end: steps are taken until no pixel waits.
pub open spec fn fill_run(s: FillState, color: Rgb, background: Rgb, tag: InstructionIndex) -> FillState
    decreases fill_measure(s, background),
{
    if s.queue.len() == 0 || color == background || !s.buffer.wf() {
        s
    } else {
        proof {
            lemma_fill_step_decreases(s, color, background, tag);
        }
        fill_run(fill_step(s, color, background, tag), color, background, tag)
    }
}

/// The edges with `border` added at the end if the fill reached it.
pub open spec fn with_border(edges: Seq<FillEdge>, reached: bool, border: FillEdge) -> Seq<FillEdge> {
    if reached {
        edges.push(border)
    } else {
        edges
    }
}

/// The edges of a finished fill: the lines in the order in which they
/// were met, then the borders reached: top, right, bottom, left.
pub open spec fn all_edges(s: FillState) -> Seq<FillEdge> {
    with_border(
        with_border(
            with_border(
                with_border(s.edges, s.top, FillEdge::TopBorder),
                s.right,
                FillEdge::RightBorder,
            ),
            s.bottom,
            FillEdge::BottomBorder,
        ),
        s.left,
        FillEdge::LeftBorder,
    )
}

/// A fill about to start at `seed`.
pub open spec fn fill_start(buffer: BufferModel, seed: PosU8) -> FillState {
    FillState {
        buffer,
        queue: seq![(seed.x as usize, seed.y as usize)],
        edges: Seq::empty(),
        top: false,
        right: false,
        bottom: false,
        left: false,
    }
}

/// What a fill leaves: the buffer, the edges, and the fault if there was
/// one.
pub ghost struct FillOutcome {
    pub buffer: BufferModel,
    pub edges: Seq<FillEdge>,
    pub fault: Option<AgiError>,
}

/// The outcome of filling from `seed` with palette entry `color` on a
/// buffer whose background is palette entry `background`.
///
/// Filling with the background colour does nothing. A seed outside the
/// surface is a fault and leaves the buffer as it was.
pub open spec fn flood_fill(
    buffer: BufferModel,
    seed: PosU8,
    color: u8,
    background: u8,
    tag: InstructionIndex,
) -> FillOutcome {
    if color == background {
        FillOutcome { buffer, edges: Seq::empty(), fault: None }
    } else if !in_viewport(seed.x as int, seed.y as int) {
        FillOutcome {
            buffer,
            edges: Seq::empty(),
            fault: Some(
                AgiError::Render(
                    RenderFault::PixelOutOfRange { x: seed.x as usize, y: seed.y as usize },
                ),
            ),
        }
    } else {
        let end = fill_run(fill_start(buffer, seed), palette(color), palette(background), tag);
        FillOutcome { buffer: end.buffer, edges: all_edges(end), fault: None }
    }
}

// ---------------------------------------------------------------------
// Queueing every pixel once
// ---------------------------------------------------------------------

/// What is left of a queue when every pixel stands in it only where it
/// stands first, and not at all once it has been looked at.
///
/// The steps of a fill queue a pixel again for every painted neighbour.
/// Looking at it a second time changes nothing, so the fill itself keeps
/// only this part of the queue.
pub open spec fn live(queue: Seq<(usize, usize)>, done: Set<(usize, usize)>) -> Seq<(usize, usize)>
    decreases queue.len(),
{
    if queue.len() == 0 {
        Seq::empty()
    } else {
        let before = live(queue.drop_last(), done);
        if done.contains(queue.last()) || queue.drop_last().contains(queue.last()) {
            before
        } else {
            before.push(queue.last())
        }
    }
}

/// Whether looking at `p` changes nothing any more: it does not have the
/// background colour and what drew it is noted, or need not be.
pub open spec fn settled(s: FillState, background: Rgb, base: usize, p: (usize, usize)) -> bool {
    in_viewport(p.0 as int, p.1 as int) && s.buffer.color_at(p.0 as int, p.1 as int) != background
        && touch(s.edges, s.buffer.tag_at(p.0 as int, p.1 as int), base) == s.edges
}

/// Whether the table marks `p` as queued.
pub open spec fn table_at(table: Seq<bool>, p: (usize, usize)) -> bool {
    table[pixel_index(p.0 as int, p.1 as int)]
}

/// Number of marks that are set in a table.
pub open spec fn marks(table: Seq<bool>) -> nat
    decreases table.len(),
{
    if table.len() == 0 {
        0
    } else {
        marks(table.drop_last()) + if table.last() {
            1nat
        } else {
            0nat
        }
    }
}

/// A table has at most as many marks set as it has marks.
pub proof fn lemma_marks_bound(table: Seq<bool>)
    ensures
        marks(table) <= table.len(),
    decreases table.len(),
{
    if table.len() > 0 {
        lemma_marks_bound(table.drop_last());
    }
}

/// A table in which no mark is set counts none.
pub proof fn lemma_marks_none(table: Seq<bool>)
    requires
        forall|i: int| 0 <= i < table.len() ==> !table[i],
    ensures
        marks(table) == 0,
    decreases table.len(),
{
    if table.len() > 0 {
        lemma_marks_none(table.drop_last());
    }
}

/// Setting a mark that was not set adds one to the count.
pub proof fn lemma_marks_set(table: Seq<bool>, i: int)
    requires
        0 <= i < table.len(),
        !table[i],
    ensures
        marks(table.update(i, true)) == marks(table) + 1,
    decreases table.len(),
{
    let after = table.update(i, true);
    if i == table.len() - 1 {
        assert(after.drop_last() == table.drop_last());
    } else {
        lemma_marks_set(table.drop_last(), i);
        assert(after.drop_last() == table.drop_last().update(i, true));
    }
}

/// How the queue of the fill, `waiting`, and its table of queued pixels
/// stand to the queue `steps` of the steps: the fill holds the live part,
/// and the table marks exactly the pixels that were looked at or wait.
pub open spec fn queue_ok(
    steps: Seq<(usize, usize)>,
    done: Set<(usize, usize)>,
    waiting: Seq<(usize, usize)>,
    table: Seq<bool>,
) -> bool {
    &&& table.len() == VIEWPORT_PIXELS
    &&& waiting == live(steps, done)
    &&& forall|j: int|
        0 <= j < steps.len() ==> in_viewport((#[trigger] steps[j]).0 as int, steps[j].1 as int)
            && table_at(table, steps[j])
    &&& forall|p: (usize, usize)| #[trigger]
        done.contains(p) ==> in_viewport(p.0 as int, p.1 as int) && table_at(table, p)
    &&& forall|p: (usize, usize)|
        in_viewport(p.0 as int, p.1 as int) && #[trigger] table_at(table, p) ==> done.contains(p)
            || steps.contains(p)
}

/// The live part holds only pixels of the queue, none of them twice and
/// none that was looked at. So a fill that keeps the live part queues
/// every pixel of the surface at most once.
pub proof fn lemma_live_once(queue: Seq<(usize, usize)>, done: Set<(usize, usize)>)
    ensures
        forall|i: int|
            0 <= i < live(queue, done).len() ==> queue.contains(#[trigger] live(queue, done)[i])
                && !done.contains(live(queue, done)[i]),
        forall|i: int, j: int|
            0 <= i < j < live(queue, done).len() ==> live(queue, done)[i] != live(queue, done)[j],
    decreases queue.len(),
{
    if queue.len() > 0 {
        let front = queue.drop_last();
        let last = queue.last();
        let before = live(front, done);
        lemma_live_once(front, done);
        assert(queue[queue.len() - 1] == last);
        assert forall|i: int| 0 <= i < live(queue, done).len() implies queue.contains(
            #[trigger] live(queue, done)[i],
        ) && !done.contains(live(queue, done)[i]) by {
            if i < before.len() {
                let k = choose|k: int| 0 <= k < front.len() && front[k] == before[i];
                assert(queue[k] == before[i]);
            }
        }
    }
}

/// Queueing a pixel adds it to the live part unless it was looked at or
/// waits already.
pub proof fn lemma_live_push(queue: Seq<(usize, usize)>, done: Set<(usize, usize)>, p: (usize, usize))
    ensures
        live(queue.push(p), done) == (if done.contains(p) || queue.contains(p) {
            live(queue, done)
        } else {
            live(queue, done).push(p)
        }),
{
    assert(queue.push(p).drop_last() == queue);
}

/// Taking a pixel that was looked at from the front leaves the live part
/// as it is.
pub proof fn lemma_live_drop_done(queue: Seq<(usize, usize)>, done: Set<(usize, usize)>)
    requires
        queue.len() > 0,
        done.contains(queue[0]),
    ensures
        live(queue.subrange(1, queue.len() as int), done) == live(queue, done),
    decreases queue.len(),
{
    let rest = queue.subrange(1, queue.len() as int);
    let front = queue.drop_last();
    let last = queue.last();
    if queue.len() == 1 {
        assert(live(front, done) == Seq::<(usize, usize)>::empty());
        assert(live(rest, done) == Seq::<(usize, usize)>::empty());
    } else {
        lemma_live_drop_done(front, done);
        assert(rest.drop_last() == front.subrange(1, front.len() as int));
        assert(rest.last() == last);
        if !done.contains(last) {
            if front.contains(last) {
                let i = choose|i: int| 0 <= i < front.len() && front[i] == last;
                assert(rest.drop_last()[i - 1] == last);
            }
            if rest.drop_last().contains(last) {
                let i = choose|i: int| 0 <= i < rest.drop_last().len() && rest.drop_last()[i] == last;
                assert(front[i + 1] == last);
            }
        }
    }
}

/// A pixel at the front that was not looked at yet is the front of the
/// live part; taking it and marking it as looked at takes it from the
/// live part.
pub proof fn lemma_live_pop(queue: Seq<(usize, usize)>, done: Set<(usize, usize)>)
    requires
        queue.len() > 0,
        !done.contains(queue[0]),
    ensures
        live(queue, done) == seq![queue[0]] + live(
            queue.subrange(1, queue.len() as int),
            done.insert(queue[0]),
        ),
    decreases queue.len(),
{
    let head = queue[0];
    let rest = queue.subrange(1, queue.len() as int);
    let after = done.insert(head);
    let front = queue.drop_last();
    let last = queue.last();
    if queue.len() == 1 {
        assert(live(front, done) == Seq::<(usize, usize)>::empty());
        assert(live(rest, after) == Seq::<(usize, usize)>::empty());
        assert(!front.contains(last));
        assert(live(queue, done) == Seq::<(usize, usize)>::empty().push(head));
        assert(live(queue, done) == seq![head] + live(rest, after));
    } else {
        lemma_live_pop(front, done);
        assert(front[0] == head);
        assert(rest.drop_last() == front.subrange(1, front.len() as int));
        assert(rest.last() == last);
        if front.contains(last) {
            let i = choose|i: int| 0 <= i < front.len() && front[i] == last;
            if i > 0 {
                assert(rest.drop_last()[i - 1] == last);
            }
        }
        if rest.drop_last().contains(last) {
            let i = choose|i: int| 0 <= i < rest.drop_last().len() && rest.drop_last()[i] == last;
            assert(front[i + 1] == last);
        }
        let inner = live(rest.drop_last(), after);
        assert(live(front, done) == seq![head] + inner);
        if done.contains(last) || front.contains(last) {
            assert(after.contains(last) || rest.drop_last().contains(last));
            assert(live(queue, done) == seq![head] + live(rest, after));
        } else {
            assert(!(after.contains(last) || rest.drop_last().contains(last)));
            assert((seq![head] + inner).push(last) == seq![head] + inner.push(last));
            assert(live(queue, done) == seq![head] + live(rest, after));
        }
    }
}

/// Taking the front of the steps' queue, if it was not looked at yet,
/// takes the front of the fill's queue.
pub proof fn lemma_queue_ok_pop(
    steps: Seq<(usize, usize)>,
    done: Set<(usize, usize)>,
    waiting: Seq<(usize, usize)>,
    table: Seq<bool>,
)
    requires
        queue_ok(steps, done, waiting, table),
        steps.len() > 0,
        !done.contains(steps[0]),
    ensures
        waiting.len() > 0,
        waiting[0] == steps[0],
        queue_ok(
            steps.subrange(1, steps.len() as int),
            done.insert(steps[0]),
            waiting.subrange(1, waiting.len() as int),
            table,
        ),
{
    let head = steps[0];
    let rest = steps.subrange(1, steps.len() as int);
    let after = done.insert(head);
    lemma_live_pop(steps, done);
    let inner = live(rest, after);
    assert(waiting == seq![head] + inner);
    assert(waiting.subrange(1, waiting.len() as int) == inner);
    assert forall|j: int| 0 <= j < rest.len() implies in_viewport(
        (#[trigger] rest[j]).0 as int,
        rest[j].1 as int,
    ) && table_at(table, rest[j]) by {
        assert(rest[j] == steps[j + 1]);
    }
    assert forall|p: (usize, usize)|
        in_viewport(p.0 as int, p.1 as int) && #[trigger] table_at(table, p) implies after.contains(p)
        || rest.contains(p) by {
        if !done.contains(p) && p != head {
            let i = choose|i: int| 0 <= i < steps.len() && steps[i] == p;
            assert(rest[i - 1] == p);
        }
    }
}

/// A step leaves settled what was settled, and settles the pixel it
/// looks at.
pub proof fn lemma_settled_step(
    s: FillState,
    color: Rgb,
    background: Rgb,
    tag: InstructionIndex,
    p: (usize, usize),
)
    requires
        s.buffer.wf(),
        color != background,
        s.queue.len() > 0,
        in_viewport(s.queue[0].0 as int, s.queue[0].1 as int),
        p == s.queue[0] || settled(s, background, tag.base_index, p),
    ensures
        settled(fill_step(s, color, background, tag), background, tag.base_index, p),
{
    let head = s.queue[0];
    let after = fill_step(s, color, background, tag);
    let there = s.buffer.tag_at(head.0 as int, head.1 as int);
    if in_viewport(p.0 as int, p.1 as int) {
        assert(pixel_index(p.0 as int, p.1 as int) == pixel_index(head.0 as int, head.1 as int)
            ==> p == head);
    }
    if s.buffer.color_at(head.0 as int, head.1 as int) != background {
        // The step notes what drew the pixel; the edges only grow.
        if there is Some && there->0.base_index != tag.base_index && !s.edges.contains(
            FillEdge::Line(there->0),
        ) {
            let noted = FillEdge::Line(there->0);
            assert(after.edges == s.edges.push(noted));
            assert(after.edges[s.edges.len() as int] == noted);
            let mine = s.buffer.tag_at(p.0 as int, p.1 as int);
            if p != head && mine is Some && mine->0.base_index != tag.base_index {
                let i = choose|i: int| 0 <= i < s.edges.len() && s.edges[i] == FillEdge::Line(mine->0);
                assert(after.edges[i] == FillEdge::Line(mine->0));
            }
        }
    }
}

/// The steps that look again at pixels at the front of the queue change
/// nothing but the queue. This takes them, up to the first pixel that
/// was not looked at yet.
pub proof fn lemma_skip_settled(
    s: FillState,
    color: Rgb,
    background: Rgb,
    tag: InstructionIndex,
    done: Set<(usize, usize)>,
    waiting: Seq<(usize, usize)>,
    table: Seq<bool>,
) -> (r: FillState)
    requires
        s.buffer.wf(),
        color != background,
        queue_ok(s.queue, done, waiting, table),
        forall|p: (usize, usize)| #[trigger]
            done.contains(p) ==> settled(s, background, tag.base_index, p),
    ensures
        fill_run(r, color, background, tag) == fill_run(s, color, background, tag),
        r == (FillState { queue: r.queue, ..s }),
        queue_ok(r.queue, done, waiting, table),
        r.queue.len() == 0 || !done.contains(r.queue[0]),
        fill_measure(r, background) <= fill_measure(s, background),
    decreases s.queue.len(),
{
    if s.queue.len() == 0 || !done.contains(s.queue[0]) {
        s
    } else {
        let head = s.queue[0];
        let rest = s.queue.subrange(1, s.queue.len() as int);
        let next = fill_step(s, color, background, tag);
        assert(settled(s, background, tag.base_index, head));
        assert(next == (FillState { queue: rest, ..s }));
        lemma_live_drop_done(s.queue, done);
        assert forall|j: int| 0 <= j < rest.len() implies in_viewport(
            (#[trigger] rest[j]).0 as int,
            rest[j].1 as int,
        ) && table_at(table, rest[j]) by {
            assert(rest[j] == s.queue[j + 1]);
        }
        assert forall|p: (usize, usize)|
            in_viewport(p.0 as int, p.1 as int) && #[trigger] table_at(table, p) implies done.contains(
            p,
        ) || rest.contains(p) by {
            if !done.contains(p) {
                let i = choose|i: int| 0 <= i < s.queue.len() && s.queue[i] == p;
                assert(rest[i - 1] == p);
            }
        }
        lemma_skip_settled(next, color, background, tag, done, waiting, table)
    }
}

/// The outcome of filling from `point` as fill point `sub_index` of
/// instruction `instruction_index`, on the buffer of the given kind.
pub open spec fn fill_of(
    buffer: BufferModel,
    point: PosU8,
    color: u8,
    buffer_type: PictureBufferType,
    instruction_index: usize,
    sub_index: usize,
) -> FillOutcome {
    flood_fill(
        buffer,
        point,
        color,
        base_color(buffer_type),
        InstructionIndex { base_index: instruction_index, sub_index },
    )
}

// ---------------------------------------------------------------------
// Filling one buffer
// ---------------------------------------------------------------------

/// Whether `edge` is among `edges`.
fn has_edge(edges: &Vec<FillEdge>, edge: FillEdge) -> (found: bool)
    ensures
        found == edges@.contains(edge),
{
    let mut i: usize = 0;
    while i < edges.len()
        invariant
            i <= edges@.len(),
            forall|j: int| 0 <= j < i ==> edges@[j] != edge,
        decreases edges@.len() - i,
    {
        if edges[i] == edge {
            return true;
        }
        i += 1;
    }
    false
}

/// A table with one mark for each pixel of the surface, none of them set.
fn unqueued_table() -> (table: Vec<bool>)
    ensures
        table@.len() == VIEWPORT_PIXELS,
        forall|i: int| 0 <= i < table@.len() ==> !table@[i],
{
    let mut table: Vec<bool> = Vec::new();
    let mut i: usize = 0;
    while i < VIEWPORT_PIXELS
        invariant
            i <= VIEWPORT_PIXELS,
            table@.len() == i,
            forall|j: int| 0 <= j < i ==> !table@[j],
        decreases VIEWPORT_PIXELS - i,
    {
        table.push(false);
        i += 1;
    }
    table
}

/// Queues the pixel `(x, y)` unless the table says that it was queued
/// before, and marks it in the table. The steps of the fill queue it in
/// any case.
fn enqueue(
    fill_queue: &mut VecDeque<(usize, usize)>,
    queued: &mut Vec<bool>,
    x: usize,
    y: usize,
    Ghost(steps): Ghost<Seq<(usize, usize)>>,
    Ghost(done): Ghost<Set<(usize, usize)>>,
)
    requires
        in_viewport(x as int, y as int),
        queue_ok(steps, done, old(fill_queue)@, old(queued)@),
    ensures
        queue_ok(steps.push((x, y)), done, final(fill_queue)@, final(queued)@),
        final(fill_queue)@.len() + marks(old(queued)@) == old(fill_queue)@.len() + marks(
            final(queued)@,
        ),
{
    let index: usize = y * VIEWPORT_WIDTH + x;
    let ghost table = queued@;
    let ghost after = steps.push((x, y));
    proof {
        lemma_live_push(steps, done, (x, y));
        assert(after[steps.len() as int] == (x, y));
    }
    if !queued[index] {
        proof {
            lemma_marks_set(queued@, index as int);
        }
        queued.set(index, true);
        fill_queue.push_back((x, y));
    }
    proof {
        assert forall|p: (usize, usize)|
            in_viewport(p.0 as int, p.1 as int) && pixel_index(p.0 as int, p.1 as int)
                == index implies p == (x, y) by {}
        assert forall|j: int| 0 <= j < after.len() implies in_viewport(
            (#[trigger] after[j]).0 as int,
            after[j].1 as int,
        ) && table_at(queued@, after[j]) by {
            if j < steps.len() {
                assert(after[j] == steps[j]);
                assert(table_at(table, steps[j]));
            }
        }
        assert forall|p: (usize, usize)| #[trigger] done.contains(p) implies in_viewport(
            p.0 as int,
            p.1 as int,
        ) && table_at(queued@, p) by {
            assert(table_at(table, p));
        }
        assert forall|p: (usize, usize)|
            in_viewport(p.0 as int, p.1 as int) && #[trigger] table_at(queued@, p) implies done.contains(
            p,
        ) || after.contains(p) by {
            if p != (x, y) {
                assert(table_at(table, p));
                if !done.contains(p) {
                    let i = choose|i: int| 0 <= i < steps.len() && steps[i] == p;
                    assert(after[i] == p);
                }
            }
        }
    }
}

/// Queues the neighbours of the pixel `(x, y)` on the surface that were
/// not queued before: right, left, below, above.
fn enqueue_neighbours(
    fill_queue: &mut VecDeque<(usize, usize)>,
    queued: &mut Vec<bool>,
    x: usize,
    y: usize,
    Ghost(steps): Ghost<Seq<(usize, usize)>>,
    Ghost(done): Ghost<Set<(usize, usize)>>,
)
    requires
        in_viewport(x as int, y as int),
        queue_ok(steps, done, old(fill_queue)@, old(queued)@),
    ensures
        queue_ok(steps + neighbours(x, y), done, final(fill_queue)@, final(queued)@),
        final(fill_queue)@.len() + marks(old(queued)@) == old(fill_queue)@.len() + marks(
            final(queued)@,
        ),
{
    let ghost mut so_far = steps;
    if x < VIEWPORT_WIDTH - 1 {
        enqueue(fill_queue, queued, x + 1, y, Ghost(so_far), Ghost(done));
        proof {
            so_far = so_far.push(((x + 1) as usize, y));
        }
    }
    if x > 0 {
        enqueue(fill_queue, queued, x - 1, y, Ghost(so_far), Ghost(done));
        proof {
            so_far = so_far.push(((x - 1) as usize, y));
        }
    }
    if y < VIEWPORT_HEIGHT - 1 {
        enqueue(fill_queue, queued, x, y + 1, Ghost(so_far), Ghost(done));
        proof {
            so_far = so_far.push((x, (y + 1) as usize));
        }
    }
    if y > 0 {
        enqueue(fill_queue, queued, x, y - 1, Ghost(so_far), Ghost(done));
        proof {
            so_far = so_far.push((x, (y - 1) as usize));
        }
    }
    assert(so_far == steps + neighbours(x, y));
}

/// The background colour of a buffer.
pub fn default_color_of(buffer_type: &PictureBufferType) -> (color: u8)
    ensures
        color == base_color(*buffer_type),
        color <= 0x0F,
{
    match buffer_type {
        PictureBufferType::Picture => PIC_BUFFER_BASE_COLOR,
        PictureBufferType::Priority => PRI_BUFFER_BASE_COLOR,
    }
}

/// Fills from `point` with palette entry `color` and tags what it paints
/// as fill point `sub_index` of instruction `instruction_index`. Returns
/// the edges of the fill.
///
/// Filling with the background colour of the buffer does nothing. A
/// point outside the surface is reported and nothing is painted.
/// Otherwise the fill paints and tags exactly the background pixels that
/// are joined to the point, and no other pixel changes.
///
/// Every pixel is queued at most once: a table marks the pixels that were
/// queued, so the queue never takes more than one entry for each pixel of
/// the surface.
#[verifier::rlimit(40)]
pub fn pixel_fill_specific_buffer(
    point: PosU8,
    color: u8,
    buffer_type: &PictureBufferType,
    buffer: &mut PixelBuffer,
    instruction_index: usize,
    sub_index: usize,
) -> (r: Result<Vec<FillEdge>, AgiError>)
    ensures
        final(buffer)@.wf(),
        final(buffer)@ == fill_of(
            old(buffer)@,
            point,
            color,
            *buffer_type,
            instruction_index,
            sub_index,
        ).buffer,
        fault_of(r) == fill_of(
            old(buffer)@,
            point,
            color,
            *buffer_type,
            instruction_index,
            sub_index,
        ).fault,
        r is Ok ==> r->Ok_0@ == fill_of(
            old(buffer)@,
            point,
            color,
            *buffer_type,
            instruction_index,
            sub_index,
        ).edges,
        color == base_color(*buffer_type) ==> final(buffer)@ == old(buffer)@ && r is Ok
            && r->Ok_0@.len() == 0,
        color != base_color(*buffer_type) && !in_viewport(point.x as int, point.y as int)
            ==> final(buffer)@ == old(buffer)@ && r is Err,
        color != base_color(*buffer_type) && in_viewport(point.x as int, point.y as int) ==> r is Ok,
        color != base_color(*buffer_type) && in_viewport(point.x as int, point.y as int)
            ==> forall|x: int, y: int|
            in_viewport(x, y) ==> (#[trigger] final(buffer)@.color_at(x, y)) == (if reached(
                old(buffer)@,
                palette(base_color(*buffer_type)),
                point,
                x,
                y,
            ) {
                palette(color)
            } else {
                old(buffer)@.color_at(x, y)
            }),
        color != base_color(*buffer_type) && in_viewport(point.x as int, point.y as int)
            ==> forall|x: int, y: int|
            in_viewport(x, y) ==> (#[trigger] final(buffer)@.tag_at(x, y)) == (if reached(
                old(buffer)@,
                palette(base_color(*buffer_type)),
                point,
                x,
                y,
            ) {
                Some(InstructionIndex { base_index: instruction_index, sub_index })
            } else {
                old(buffer)@.tag_at(x, y)
            }),
{
    let default_color: u8 = default_color_of(buffer_type);
    let mut fill_edges: Vec<FillEdge> = Vec::new();
    proof {
        buffer.lemma_sized();
    }
    if color == default_color {
        return Ok(fill_edges);
    }
    if point.x as usize >= VIEWPORT_WIDTH || point.y as usize >= VIEWPORT_HEIGHT {
        return Err(
            AgiError::Render(
                RenderFault::PixelOutOfRange { x: point.x as usize, y: point.y as usize },
            ),
        );
    }
    let tag = InstructionIndex::new_sub(instruction_index, sub_index);
    let paint: Rgb = get_color(color);
    let background: Rgb = get_color(default_color);
    proof {
        lemma_palette_distinct(color, default_color);
    }
    let mut fill_queue: VecDeque<(usize, usize)> = VecDeque::new();
    let mut queued: Vec<bool> = unqueued_table();
    let mut top: bool = false;
    let mut right: bool = false;
    let mut bottom: bool = false;
    let mut left: bool = false;
    let ghost start = fill_start(buffer@, point);
    // The steps of the fill as `fill_run` takes them, and the pixels
    // that were looked at.
    let ghost mut model = start;
    let ghost mut done: Set<(usize, usize)> = Set::empty();
    // How many pixels were taken from the queue.
    let ghost mut taken: nat = 0;
    proof {
        lemma_marks_none(queued@);
    }
    enqueue(
        &mut fill_queue,
        &mut queued,
        point.x as usize,
        point.y as usize,
        Ghost(Seq::empty()),
        Ghost(done),
    );
    proof {
        lemma_marks_bound(queued@);
        assert(start.queue == Seq::<(usize, usize)>::empty().push(
            (point.x as usize, point.y as usize),
        ));
    }
    while fill_queue.len() > 0
        invariant
            buffer@.wf(),
            paint == palette(color),
            background == palette(default_color),
            paint != background,
            tag == (InstructionIndex { base_index: instruction_index, sub_index }),
            model.buffer == buffer@,
            model.edges == fill_edges@,
            model.top == top,
            model.right == right,
            model.bottom == bottom,
            model.left == left,
            fill_run(model, paint, background, tag) == fill_run(start, paint, background, tag),
            queue_ok(model.queue, done, fill_queue@, queued@),
            forall|p: (usize, usize)| #[trigger]
                done.contains(p) ==> settled(model, background, instruction_index, p),
            // Every pixel that was ever queued has its own mark in the table.
            taken + fill_queue@.len() == marks(queued@),
            taken + fill_queue@.len() <= VIEWPORT_PIXELS,
        decreases fill_measure(model, background),
    {
        proof {
            model = lemma_skip_settled(model, paint, background, tag, done, fill_queue@, queued@);
            lemma_queue_ok_pop(model.queue, done, fill_queue@, queued@);
            lemma_fill_step_decreases(model, paint, background, tag);
        }
        let ghost looked = model.queue[0];
        let ghost rest = model.queue.subrange(1, model.queue.len() as int);
        let ghost after = fill_step(model, paint, background, tag);
        let (cur_x, cur_y) = fill_queue.pop_front().unwrap();
        proof {
            done = done.insert(looked);
            taken = taken + 1;
            assert forall|p: (usize, usize)| #[trigger] done.contains(p) implies settled(
                after,
                background,
                instruction_index,
                p,
            ) by {
                lemma_settled_step(model, paint, background, tag, p);
            }
        }
        let here: Rgb = buffer.get_pixel(cur_x, cur_y).unwrap();
        if here == background {
            match buffer.set_pixel(cur_x, cur_y, Some(color), tag) {
                Ok(()) => {},
                Err(e) => {
                    return Err(e);
                },
            }
            enqueue_neighbours(&mut fill_queue, &mut queued, cur_x, cur_y, Ghost(rest), Ghost(done));
            if cur_x == VIEWPORT_WIDTH - 1 {
                right = true;
            }
            if cur_x == 0 {
                left = true;
            }
            if cur_y == VIEWPORT_HEIGHT - 1 {
                bottom = true;
            }
            if cur_y == 0 {
                top = true;
            }
        } else {
            let there = buffer.get_pixel_instruction(cur_x, cur_y).unwrap();
            if let Some(inst) = there {
                if inst.base_index != instruction_index {
                    let edge = FillEdge::Line(inst);
                    if !has_edge(&fill_edges, edge) {
                        fill_edges.push(edge);
                    }
                }
            }
        }
        proof {
            model = after;
            lemma_marks_bound(queued@);
        }
    }
    proof {
        let end = lemma_skip_settled(model, paint, background, tag, done, fill_queue@, queued@);
        if end.queue.len() > 0 {
            lemma_queue_ok_pop(end.queue, done, fill_queue@, queued@);
        }
        assert(fill_run(end, paint, background, tag) == end);
    }
    if top {
        fill_edges.push(FillEdge::TopBorder);
    }
    if right {
        fill_edges.push(FillEdge::RightBorder);
    }
    if bottom {
        fill_edges.push(FillEdge::BottomBorder);
    }
    if left {
        fill_edges.push(FillEdge::LeftBorder);
    }
    proof {
        lemma_fill_paints_region(old(buffer)@, point, color, default_color, tag);
    }
    Ok(fill_edges)
}

// ---------------------------------------------------------------------
// Filling both buffers from several points
// ---------------------------------------------------------------------

/// The canvas during a fill instruction, with the edges of each fill
/// made so far: one list for each fill of the picture buffer and one for
/// each fill of the priority buffer.
pub ghost struct FillTrace {
    pub canvas: Canvas,
    pub pic_edges: Seq<Seq<FillEdge>>,
    pub pri_edges: Seq<Seq<FillEdge>>,
}

/// The trace after filling from one point: first the picture buffer,
/// then the priority buffer, each only if it is there and has a colour.
/// After a fault nothing more is filled.
pub open spec fn fill_point(t: FillTrace, seed: PosU8, base: usize, sub_index: usize) -> FillTrace {
    let tag = InstructionIndex { base_index: base, sub_index };
    let t1 = if t.canvas.fault is None && t.canvas.pic_active() {
        let out = flood_fill(
            t.canvas.pic->0,
            seed,
            t.canvas.pic_color->0,
            PIC_BUFFER_BASE_COLOR,
            tag,
        );
        FillTrace {
            canvas: Canvas { pic: Some(out.buffer), fault: out.fault, ..t.canvas },
            pic_edges: t.pic_edges.push(out.edges),
            pri_edges: t.pri_edges,
        }
    } else {
        t
    };
    if t1.canvas.fault is None && t1.canvas.pri_active() {
        let out = flood_fill(
            t1.canvas.pri->0,
            seed,
            t1.canvas.pri_color->0,
            PRI_BUFFER_BASE_COLOR,
            tag,
        );
        FillTrace {
            canvas: Canvas { pri: Some(out.buffer), fault: out.fault, ..t1.canvas },
            pic_edges: t1.pic_edges,
            pri_edges: t1.pri_edges.push(out.edges),
        }
    } else {
        t1
    }
}

/// The trace after filling from the first `count` points; point `i` is
/// tagged as fill point `i`.
pub open spec fn fill_points(t: FillTrace, seeds: Seq<PosU8>, base: usize, count: int) -> FillTrace
    decreases count,
{
    if count <= 0 {
        t
    } else {
        fill_point(fill_points(t, seeds, base, count - 1), seeds[count - 1], base, (count - 1) as usize)
    }
}

/// The trace of a whole fill instruction on the canvas `c`.
pub open spec fn paint_fill(c: Canvas, seeds: Seq<PosU8>, base: usize) -> FillTrace {
    fill_points(
        FillTrace { canvas: c, pic_edges: Seq::empty(), pri_edges: Seq::empty() },
        seeds,
        base,
        seeds.len() as int,
    )
}

/// Once a fill has met a fault, further points change nothing.
pub proof fn lemma_fill_points_keep_fault(t: FillTrace, seeds: Seq<PosU8>, base: usize, k: int, n: int)
    requires
        0 <= k <= n,
        fill_points(t, seeds, base, k).canvas.fault is Some,
    ensures
        fill_points(t, seeds, base, n) == fill_points(t, seeds, base, k),
    decreases n - k,
{
    if k < n {
        lemma_fill_points_keep_fault(t, seeds, base, k, n - 1);
    }
}

/// The lists of edges as sequences.
pub open spec fn edge_lists(lists: Seq<Vec<FillEdge>>) -> Seq<Seq<FillEdge>> {
    Seq::new(lists.len(), |i: int| lists[i]@)
}

/// Fills from each of `points` in turn, in each buffer that is there and
/// has a colour, and returns the edges of every fill: those of the
/// picture buffer and those of the priority buffer.
///
/// Stops at the first point outside the surface and reports it; what was
/// filled before it stays.
pub fn pixel_fill(
    points: &[PosU8],
    pic_buffer: &mut Option<PixelBuffer>,
    pic_color: Option<u8>,
    pri_buffer: &mut Option<PixelBuffer>,
    pri_color: Option<u8>,
    instruction_index: usize,
) -> (r: Result<(Vec<Vec<FillEdge>>, Vec<Vec<FillEdge>>), AgiError>)
    ensures
        *final(pic_buffer) is Some == *old(pic_buffer) is Some,
        *final(pri_buffer) is Some == *old(pri_buffer) is Some,
        canvas_of(*final(pic_buffer), *final(pri_buffer), pic_color, pri_color, fault_of(r))
            == paint_fill(
            canvas_of(*old(pic_buffer), *old(pri_buffer), pic_color, pri_color, None),
            points@,
            instruction_index,
        ).canvas,
        r is Ok ==> edge_lists(r->Ok_0.0@) == paint_fill(
            canvas_of(*old(pic_buffer), *old(pri_buffer), pic_color, pri_color, None),
            points@,
            instruction_index,
        ).pic_edges && edge_lists(r->Ok_0.1@) == paint_fill(
            canvas_of(*old(pic_buffer), *old(pri_buffer), pic_color, pri_color, None),
            points@,
            instruction_index,
        ).pri_edges,
{
    let mut pic_edges: Vec<Vec<FillEdge>> = Vec::new();
    let mut pri_edges: Vec<Vec<FillEdge>> = Vec::new();
    let ghost start = FillTrace {
        canvas: canvas_of(*pic_buffer, *pri_buffer, pic_color, pri_color, None),
        pic_edges: Seq::empty(),
        pri_edges: Seq::empty(),
    };
    assert(edge_lists(pri_edges@) == Seq::<Seq<FillEdge>>::empty());
    let mut sub_index: usize = 0;
    while sub_index < points.len()
        invariant
            sub_index <= points@.len(),
            start.canvas == canvas_of(*old(pic_buffer), *old(pri_buffer), pic_color, pri_color, None),
            *pic_buffer is Some == *old(pic_buffer) is Some,
            *pri_buffer is Some == *old(pri_buffer) is Some,
            start.pic_edges == Seq::<Seq<FillEdge>>::empty(),
            start.pri_edges == Seq::<Seq<FillEdge>>::empty(),
            (FillTrace {
                canvas: canvas_of(*pic_buffer, *pri_buffer, pic_color, pri_color, None),
                pic_edges: edge_lists(pic_edges@),
                pri_edges: edge_lists(pri_edges@),
            }) == fill_points(start, points@, instruction_index, sub_index as int),
        decreases points@.len() - sub_index,
    {
        let point: PosU8 = points[sub_index];
        if let Some(buffer) = pic_buffer {
            if let Some(color) = pic_color {
                let ghost lists = pic_edges@;
                match pixel_fill_specific_buffer(
                    point,
                    color,
                    &PictureBufferType::Picture,
                    buffer,
                    instruction_index,
                    sub_index,
                ) {
                    Ok(edges) => {
                        pic_edges.push(edges);
                        assert(edge_lists(pic_edges@) == edge_lists(lists).push(edges@));
                    },
                    Err(e) => {
                        proof {
                            lemma_fill_points_keep_fault(
                                start,
                                points@,
                                instruction_index,
                                sub_index + 1,
                                points@.len() as int,
                            );
                        }
                        return Err(e);
                    },
                }
            }
        }
        if let Some(buffer) = pri_buffer {
            if let Some(color) = pri_color {
                let ghost lists = pri_edges@;
                match pixel_fill_specific_buffer(
                    point,
                    color,
                    &PictureBufferType::Priority,
                    buffer,
                    instruction_index,
                    sub_index,
                ) {
                    Ok(edges) => {
                        pri_edges.push(edges);
                        assert(edge_lists(pri_edges@) == edge_lists(lists).push(edges@));
                    },
                    Err(e) => {
                        proof {
                            lemma_fill_points_keep_fault(
                                start,
                                points@,
                                instruction_index,
                                sub_index + 1,
                                points@.len() as int,
                            );
                        }
                        return Err(e);
                    },
                }
            }
        }
        sub_index += 1;
    }
    Ok((pic_edges, pri_edges))
}

} // verus!
