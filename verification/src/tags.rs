//! Tags only ever name instructions that have run.
//!
//! While a program is replayed, every tag in a buffer and every line that
//! a fill has met names an instruction before the one that follows. The
//! lemmas here carry that bound through each kind of drawing.

use vstd::prelude::*;
use crate::common::PosU8;
use crate::common::PIC_BUFFER_BASE_COLOR;
use crate::common::PRI_BUFFER_BASE_COLOR;
use crate::fill::with_border;
use crate::fill::fill_measure;
use crate::fill::fill_point;
use crate::fill::fill_points;
use crate::fill::fill_run;
use crate::fill::fill_start;
use crate::fill::fill_step;
use crate::fill::flood_fill;
use crate::fill::lemma_fill_step_decreases;
use crate::fill::paint_fill;
use crate::fill::FillEdge;
use crate::fill::FillState;
use crate::fill::FillTrace;
use crate::line::paint_lines;
use crate::line::paint_plot;
use crate::line::paint_polyline;
use crate::line::paint_segment;
use crate::line::paint_steps;
use crate::line::segment_plot;
use crate::line::segment_steps;
use crate::line::Canvas;
use crate::line::Plot;
use crate::palette::palette;
use crate::palette::Rgb;
use crate::pixel_buffer::in_viewport;
use crate::pixel_buffer::pixel_index;
use crate::pixel_buffer::BufferModel;
use crate::pixel_buffer::InstructionIndex;

verus! {

/// The buffer has its full size and every tag in it names an
/// instruction below `bound`.
pub open spec fn buffer_below(b: BufferModel, bound: int) -> bool {
    b.wf() && forall|i: int|
        0 <= i < b.tags.len() ==> (#[trigger] b.tags[i]) is Some ==> b.tags[i]->0.base_index < bound
}

/// Each buffer of the canvas that is there is below `bound`.
pub open spec fn canvas_below(c: Canvas, bound: int) -> bool {
    (c.pic is Some ==> buffer_below(c.pic->0, bound)) && (c.pri is Some ==> buffer_below(
        c.pri->0,
        bound,
    ))
}

/// Every line among the edges names an instruction below `bound`.
pub open spec fn edges_below(edges: Seq<FillEdge>, bound: int) -> bool {
    forall|j: int|
        0 <= j < edges.len() ==> (#[trigger] edges[j]) is Line ==> edges[j]->Line_0.base_index
            < bound
}

/// Every list of edges is below `bound`.
pub open spec fn lists_below(lists: Seq<Seq<FillEdge>>, bound: int) -> bool {
    forall|k: int| 0 <= k < lists.len() ==> edges_below(#[trigger] lists[k], bound)
}

/// A buffer in which nothing is tagged is below every bound.
pub proof fn lemma_blank_below(color: Rgb, bound: int)
    ensures
        buffer_below(BufferModel::blank(color), bound),
{
}

/// A bound that holds keeps holding when it grows.
pub proof fn lemma_buffer_below_grows(b: BufferModel, bound: int, more: int)
    requires
        buffer_below(b, bound),
        bound <= more,
    ensures
        buffer_below(b, more),
{
}

/// Drawing one pixel on the surface with a tag below the bound keeps the
/// buffer below it.
pub proof fn lemma_plot_below(b: BufferModel, x: int, y: int, c: Rgb, tag: InstructionIndex, bound: int)
    requires
        buffer_below(b, bound),
        in_viewport(x, y),
        tag.base_index < bound,
    ensures
        buffer_below(b.plot(x, y, c, tag), bound),
{
}

/// Drawing one pixel for an instruction below the bound keeps the canvas
/// below it.
pub proof fn lemma_paint_plot_below(c: Canvas, plot: Plot, base: usize, bound: int)
    requires
        canvas_below(c, bound),
        base < bound,
    ensures
        canvas_below(paint_plot(c, plot, base), bound),
{
    let tag = InstructionIndex { base_index: base, sub_index: plot.sub_index };
    if c.fault is None && (c.pic_active() || c.pri_active()) && in_viewport(plot.x, plot.y) {
        if c.pic_active() {
            lemma_plot_below(c.pic->0, plot.x, plot.y, palette(c.pic_color->0), tag, bound);
        }
        if c.pri_active() {
            lemma_plot_below(c.pri->0, plot.x, plot.y, palette(c.pri_color->0), tag, bound);
        }
    }
}

/// Stepped pixels keep the canvas below the bound.
pub proof fn lemma_paint_steps_below(
    c: Canvas,
    a: PosU8,
    b: PosU8,
    sub_index: usize,
    base: usize,
    k: int,
    bound: int,
)
    requires
        canvas_below(c, bound),
        base < bound,
    ensures
        canvas_below(paint_steps(c, a, b, sub_index, base, k), bound),
    decreases k,
{
    if k > 0 {
        lemma_paint_steps_below(c, a, b, sub_index, base, k - 1, bound);
        lemma_paint_plot_below(
            paint_steps(c, a, b, sub_index, base, k - 1),
            segment_plot(a, b, sub_index, k - 1),
            base,
            bound,
        );
    }
}

/// A segment keeps the canvas below the bound.
pub proof fn lemma_paint_segment_below(
    c: Canvas,
    a: PosU8,
    b: PosU8,
    sub_index: usize,
    base: usize,
    bound: int,
)
    requires
        canvas_below(c, bound),
        base < bound,
    ensures
        canvas_below(paint_segment(c, a, b, sub_index, base), bound),
{
    lemma_paint_steps_below(c, a, b, sub_index, base, segment_steps(a, b), bound);
    lemma_paint_plot_below(
        paint_steps(c, a, b, sub_index, base, segment_steps(a, b)),
        Plot { x: b.x as int, y: b.y as int, sub_index },
        base,
        bound,
    );
}

/// Segments keep the canvas below the bound.
pub proof fn lemma_paint_polyline_below(
    c: Canvas,
    points: Seq<PosU8>,
    base: usize,
    segments: int,
    bound: int,
)
    requires
        canvas_below(c, bound),
        base < bound,
    ensures
        canvas_below(paint_polyline(c, points, base, segments), bound),
    decreases segments,
{
    if segments > 0 {
        lemma_paint_polyline_below(c, points, base, segments - 1, bound);
        lemma_paint_segment_below(
            paint_polyline(c, points, base, segments - 1),
            points[segments - 1],
            points[segments],
            (segments - 1) as usize,
            base,
            bound,
        );
    }
}

/// A line instruction below the bound keeps the canvas below it.
pub proof fn lemma_paint_lines_below(c: Canvas, points: Seq<PosU8>, base: usize, bound: int)
    requires
        canvas_below(c, bound),
        base < bound,
    ensures
        canvas_below(paint_lines(c, points, base), bound),
{
    if points.len() == 1 {
        lemma_paint_plot_below(
            c,
            Plot { x: points[0].x as int, y: points[0].y as int, sub_index: 0 },
            base,
            bound,
        );
    } else if points.len() > 1 {
        lemma_paint_polyline_below(c, points, base, points.len() - 1, bound);
    }
}

/// One step of a fill keeps the buffer and the lines met below the bound.
pub proof fn lemma_fill_step_below(
    s: FillState,
    color: Rgb,
    background: Rgb,
    tag: InstructionIndex,
    bound: int,
)
    requires
        s.queue.len() > 0,
        buffer_below(s.buffer, bound),
        edges_below(s.edges, bound),
        tag.base_index < bound,
    ensures
        buffer_below(fill_step(s, color, background, tag).buffer, bound),
        edges_below(fill_step(s, color, background, tag).edges, bound),
{
    let x = s.queue[0].0 as int;
    let y = s.queue[0].1 as int;
    if in_viewport(x, y) {
        if s.buffer.color_at(x, y) == background {
            lemma_plot_below(s.buffer, x, y, color, tag, bound);
        }
    }
}

/// A fill run to its end keeps the buffer and the lines met below the
/// bound.
pub proof fn lemma_fill_run_below(
    s: FillState,
    color: Rgb,
    background: Rgb,
    tag: InstructionIndex,
    bound: int,
)
    requires
        buffer_below(s.buffer, bound),
        edges_below(s.edges, bound),
        tag.base_index < bound,
    ensures
        buffer_below(fill_run(s, color, background, tag).buffer, bound),
        edges_below(fill_run(s, color, background, tag).edges, bound),
    decreases fill_measure(s, background),
{
    if s.queue.len() > 0 && color != background {
        lemma_fill_step_decreases(s, color, background, tag);
        lemma_fill_step_below(s, color, background, tag, bound);
        lemma_fill_run_below(fill_step(s, color, background, tag), color, background, tag, bound);
    }
}

/// Adding a border keeps the edges below the bound.
pub proof fn lemma_with_border_below(edges: Seq<FillEdge>, reached: bool, border: FillEdge, bound: int)
    requires
        edges_below(edges, bound),
        !(border is Line),
    ensures
        edges_below(with_border(edges, reached, border), bound),
{
}

/// A fill for an instruction below the bound leaves the buffer below it,
/// and every line among its edges names an instruction below it.
pub proof fn lemma_flood_fill_below(
    buffer: BufferModel,
    seed: PosU8,
    color: u8,
    background: u8,
    tag: InstructionIndex,
    bound: int,
)
    requires
        buffer_below(buffer, bound),
        tag.base_index < bound,
    ensures
        buffer_below(flood_fill(buffer, seed, color, background, tag).buffer, bound),
        edges_below(flood_fill(buffer, seed, color, background, tag).edges, bound),
{
    if color != background && in_viewport(seed.x as int, seed.y as int) {
        let start = fill_start(buffer, seed);
        lemma_fill_run_below(
            start,
            palette(color),
            palette(background),
            tag,
            bound,
        );
        let end = fill_run(
            start,
            palette(color),
            palette(background),
            tag,
        );
        lemma_with_border_below(end.edges, end.top, FillEdge::TopBorder, bound);
        let a = with_border(end.edges, end.top, FillEdge::TopBorder);
        lemma_with_border_below(a, end.right, FillEdge::RightBorder, bound);
        let b = with_border(a, end.right, FillEdge::RightBorder);
        lemma_with_border_below(b, end.bottom, FillEdge::BottomBorder, bound);
        let c = with_border(b, end.bottom, FillEdge::BottomBorder);
        lemma_with_border_below(c, end.left, FillEdge::LeftBorder, bound);
    }
}

/// The canvas and both lists of edge lists of a trace are below `bound`.
pub open spec fn trace_below(t: FillTrace, bound: int) -> bool {
    canvas_below(t.canvas, bound) && lists_below(t.pic_edges, bound) && lists_below(
        t.pri_edges,
        bound,
    )
}

/// Filling from one point keeps the trace below the bound.
pub proof fn lemma_fill_point_below(t: FillTrace, seed: PosU8, base: usize, sub_index: usize, bound: int)
    requires
        trace_below(t, bound),
        base < bound,
    ensures
        trace_below(fill_point(t, seed, base, sub_index), bound),
{
    let tag = InstructionIndex { base_index: base, sub_index };
    let t1 = if t.canvas.fault is None && t.canvas.pic_active() {
        let out = flood_fill(
            t.canvas.pic->0,
            seed,
            t.canvas.pic_color->0,
            PIC_BUFFER_BASE_COLOR,
            tag,
        );
        lemma_flood_fill_below(
            t.canvas.pic->0,
            seed,
            t.canvas.pic_color->0,
            PIC_BUFFER_BASE_COLOR,
            tag,
            bound,
        );
        FillTrace {
            canvas: Canvas { pic: Some(out.buffer), fault: out.fault, ..t.canvas },
            pic_edges: t.pic_edges.push(out.edges),
            pri_edges: t.pri_edges,
        }
    } else {
        t
    };
    if t1.canvas.fault is None && t1.canvas.pri_active() {
        lemma_flood_fill_below(
            t1.canvas.pri->0,
            seed,
            t1.canvas.pri_color->0,
            PRI_BUFFER_BASE_COLOR,
            tag,
            bound,
        );
    }
}

/// Filling from several points keeps the trace below the bound.
pub proof fn lemma_fill_points_below(
    t: FillTrace,
    seeds: Seq<PosU8>,
    base: usize,
    count: int,
    bound: int,
)
    requires
        trace_below(t, bound),
        base < bound,
    ensures
        trace_below(fill_points(t, seeds, base, count), bound),
    decreases count,
{
    if count > 0 {
        lemma_fill_points_below(t, seeds, base, count - 1, bound);
        lemma_fill_point_below(
            fill_points(t, seeds, base, count - 1),
            seeds[count - 1],
            base,
            (count - 1) as usize,
            bound,
        );
    }
}

/// A fill instruction below the bound keeps the canvas below it, and
/// every line among its edges names an instruction below it.
pub proof fn lemma_paint_fill_below(c: Canvas, seeds: Seq<PosU8>, base: usize, bound: int)
    requires
        canvas_below(c, bound),
        base < bound,
    ensures
        trace_below(paint_fill(c, seeds, base), bound),
{
    lemma_fill_points_below(
        FillTrace { canvas: c, pic_edges: Seq::empty(), pri_edges: Seq::empty() },
        seeds,
        base,
        seeds.len() as int,
        bound,
    );
}

} // verus!
