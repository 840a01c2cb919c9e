//! Drawing between points of the surface stays on the surface.
//!
//! A stepped pixel of a segment never leaves the rectangle that the two
//! ends of the segment span. So a line through points of the surface
//! meets no fault, and neither does a fill from points of the surface.

use vstd::prelude::*;
use crate::common::PosU8;
use crate::fill::fill_point;
use crate::fill::fill_points;
use crate::fill::paint_fill;
use crate::fill::FillTrace;
use crate::line::minor_at;
use crate::line::paint_lines;
use crate::line::paint_plot;
use crate::line::paint_polyline;
use crate::line::paint_segment;
use crate::line::paint_steps;
use crate::line::segment_plot;
use crate::line::segment_steps;
use crate::line::sierra_round_ratio;
use crate::line::x_is_major;
use crate::line::Canvas;
use crate::line::Plot;
use crate::pixel_buffer::in_viewport;

verus! {

/// Whether `v` lies between `a` and `b`, whichever is smaller.
pub open spec fn between(a: int, v: int, b: int) -> bool {
    (a <= v <= b) || (b <= v <= a)
}

/// Every point of the sequence lies on the surface.
pub open spec fn all_inside(points: Seq<PosU8>) -> bool {
    forall|i: int| 0 <= i < points.len() ==> in_viewport(
        (#[trigger] points[i]).x as int,
        points[i].y as int,
    )
}

/// A fraction whose value lies between two whole numbers rounds to a
/// whole number between them, whatever the direction of travel.
pub proof fn lemma_round_between(num: int, den: int, negative: bool, lo: int, hi: int)
    requires
        den > 0,
        lo * den <= num <= hi * den,
    ensures
        lo <= sierra_round_ratio(num, den, negative) <= hi,
{
    let q = num / den;
    let r = num % den;
    assert(num == den * q + r && 0 <= r < den) by (nonlinear_arith)
        requires
            den > 0,
            q == num / den,
            r == num % den,
    ;
    assert(lo <= q) by (nonlinear_arith)
        requires
            den > 0,
            lo * den <= num,
            num == den * q + r,
            r < den,
    ;
    assert(q <= hi) by (nonlinear_arith)
        requires
            den > 0,
            num <= hi * den,
            num == den * q + r,
            0 <= r,
    ;
    if r > 0 {
        assert(q < hi) by (nonlinear_arith)
            requires
                den > 0,
                num <= hi * den,
                num == den * q + r,
                0 < r,
        ;
    }
}

/// The coordinate on the minor axis stays between its two ends.
pub proof fn lemma_minor_between(from: int, to: int, n: int, k: int)
    requires
        0 <= k <= n,
        n > 0,
    ensures
        between(from, minor_at(from, to, n, k), to),
{
    let num = from * n + k * (to - from);
    assert(num == from * (n - k) + to * k) by (nonlinear_arith)
        requires
            num == from * n + k * (to - from),
    ;
    if from <= to {
        assert(from * n <= num <= to * n) by (nonlinear_arith)
            requires
                num == from * (n - k) + to * k,
                0 <= k <= n,
                from <= to,
        ;
        lemma_round_between(num, n, to < from, from, to);
    } else {
        assert(to * n <= num <= from * n) by (nonlinear_arith)
            requires
                num == from * (n - k) + to * k,
                0 <= k <= n,
                to <= from,
        ;
        lemma_round_between(num, n, to < from, to, from);
    }
}

/// A stepped pixel of a segment lies in the rectangle that its two ends
/// span.
pub proof fn lemma_segment_plot_between(a: PosU8, b: PosU8, sub_index: usize, k: int)
    requires
        0 <= k < segment_steps(a, b),
    ensures
        between(a.x as int, segment_plot(a, b, sub_index, k).x, b.x as int),
        between(a.y as int, segment_plot(a, b, sub_index, k).y, b.y as int),
{
    let n = segment_steps(a, b);
    if x_is_major(a, b) {
        lemma_minor_between(a.y as int, b.y as int, n, k);
    } else {
        lemma_minor_between(a.x as int, b.x as int, n, k);
    }
}

/// A pixel of the surface is drawn without a fault.
pub proof fn lemma_plot_inside_is_drawn(c: Canvas, plot: Plot, base: usize)
    requires
        c.fault is None,
        in_viewport(plot.x, plot.y),
    ensures
        paint_plot(c, plot, base).fault is None,
        paint_plot(c, plot, base).pic_color == c.pic_color,
        paint_plot(c, plot, base).pri_color == c.pri_color,
{
}

/// The stepped pixels of a segment between two points of the surface
/// are drawn without a fault.
pub proof fn lemma_steps_inside(c: Canvas, a: PosU8, b: PosU8, sub_index: usize, base: usize, k: int)
    requires
        c.fault is None,
        in_viewport(a.x as int, a.y as int),
        in_viewport(b.x as int, b.y as int),
        0 <= k <= segment_steps(a, b),
    ensures
        paint_steps(c, a, b, sub_index, base, k).fault is None,
    decreases k,
{
    if k > 0 {
        lemma_steps_inside(c, a, b, sub_index, base, k - 1);
        lemma_segment_plot_between(a, b, sub_index, k - 1);
        lemma_plot_inside_is_drawn(
            paint_steps(c, a, b, sub_index, base, k - 1),
            segment_plot(a, b, sub_index, k - 1),
            base,
        );
    }
}

/// A segment between two points of the surface is drawn without a fault.
pub proof fn lemma_segment_inside(c: Canvas, a: PosU8, b: PosU8, sub_index: usize, base: usize)
    requires
        c.fault is None,
        in_viewport(a.x as int, a.y as int),
        in_viewport(b.x as int, b.y as int),
    ensures
        paint_segment(c, a, b, sub_index, base).fault is None,
{
    lemma_steps_inside(c, a, b, sub_index, base, segment_steps(a, b));
}

/// The first segments of a line through points of the surface are drawn
/// without a fault.
pub proof fn lemma_polyline_inside(c: Canvas, points: Seq<PosU8>, base: usize, segments: int)
    requires
        c.fault is None,
        all_inside(points),
        0 <= segments < points.len(),
    ensures
        paint_polyline(c, points, base, segments).fault is None,
    decreases segments,
{
    if segments > 0 {
        lemma_polyline_inside(c, points, base, segments - 1);
        lemma_segment_inside(
            paint_polyline(c, points, base, segments - 1),
            points[segments - 1],
            points[segments],
            (segments - 1) as usize,
            base,
        );
    }
}

/// A line through points of the surface is drawn without a fault.
pub proof fn lemma_lines_inside(c: Canvas, points: Seq<PosU8>, base: usize)
    requires
        c.fault is None,
        all_inside(points),
    ensures
        paint_lines(c, points, base).fault is None,
{
    if points.len() > 1 {
        lemma_polyline_inside(c, points, base, points.len() - 1);
    }
}

/// A fill from a point of the surface meets no fault.
pub proof fn lemma_fill_point_inside(t: FillTrace, seed: PosU8, base: usize, sub_index: usize)
    requires
        t.canvas.fault is None,
        in_viewport(seed.x as int, seed.y as int),
    ensures
        fill_point(t, seed, base, sub_index).canvas.fault is None,
{
}

/// Fills from points of the surface meet no fault.
pub proof fn lemma_fill_points_inside(t: FillTrace, seeds: Seq<PosU8>, base: usize, count: int)
    requires
        t.canvas.fault is None,
        all_inside(seeds),
        0 <= count <= seeds.len(),
    ensures
        fill_points(t, seeds, base, count).canvas.fault is None,
    decreases count,
{
    if count > 0 {
        lemma_fill_points_inside(t, seeds, base, count - 1);
        lemma_fill_point_inside(
            fill_points(t, seeds, base, count - 1),
            seeds[count - 1],
            base,
            (count - 1) as usize,
        );
    }
}

/// A fill instruction with points of the surface meets no fault.
pub proof fn lemma_fill_inside(c: Canvas, seeds: Seq<PosU8>, base: usize)
    requires
        c.fault is None,
        all_inside(seeds),
    ensures
        paint_fill(c, seeds, base).canvas.fault is None,
{
    lemma_fill_points_inside(
        FillTrace { canvas: c, pic_edges: Seq::empty(), pri_edges: Seq::empty() },
        seeds,
        base,
        seeds.len() as int,
    );
}

} // verus!
