//! Drawing lines onto the picture and the priority buffer.
//!
//! A line is stepped one pixel at a time along the axis on which it is
//! longer. The coordinate on the other axis is an exact fraction, rounded
//! with a rule that depends on the direction of travel.

use vstd::prelude::*;
use crate::common::AgiError;
use crate::common::PosU8;
use crate::common::RenderFault;
use crate::palette::palette;
use crate::pixel_buffer::in_viewport;
use crate::pixel_buffer::BufferModel;
use crate::pixel_buffer::InstructionIndex;
use crate::pixel_buffer::PixelBuffer;

verus! {

// ---------------------------------------------------------------------
// The two buffers and the colours in force
// ---------------------------------------------------------------------

/// What drawing acts on: the buffers that are there, the colour in force
/// for each (`None`: drawing to it is off), and the fault that stopped
/// drawing, if any.
pub ghost struct Canvas {
    pub pic: Option<BufferModel>,
    pub pri: Option<BufferModel>,
    pub pic_color: Option<u8>,
    pub pri_color: Option<u8>,
    pub fault: Option<AgiError>,
}

impl Canvas {
    /// Whether pixels are drawn to the picture buffer.
    pub open spec fn pic_active(self) -> bool {
        self.pic is Some && self.pic_color is Some
    }

    /// Whether pixels are drawn to the priority buffer.
    pub open spec fn pri_active(self) -> bool {
        self.pri is Some && self.pri_color is Some
    }
}

/// The content of a buffer that may be absent.
pub open spec fn buffer_model(buffer: Option<PixelBuffer>) -> Option<BufferModel> {
    match buffer {
        Some(b) => Some(b@),
        None => None,
    }
}

/// The fault that a result reports.
pub open spec fn fault_of<T>(r: Result<T, AgiError>) -> Option<AgiError> {
    match r {
        Ok(_) => None,
        Err(e) => Some(e),
    }
}

/// The canvas made of two buffers, the colours in force and a fault.
pub open spec fn canvas_of(
    pic: Option<PixelBuffer>,
    pri: Option<PixelBuffer>,
    pic_color: Option<u8>,
    pri_color: Option<u8>,
    fault: Option<AgiError>,
) -> Canvas {
    Canvas { pic: buffer_model(pic), pri: buffer_model(pri), pic_color, pri_color, fault }
}

/// One pixel to draw, and the segment or fill point it belongs to.
pub ghost struct Plot {
    pub x: int,
    pub y: int,
    pub sub_index: usize,
}

/// The canvas after drawing one pixel for instruction `base`.
///
/// After a fault nothing is drawn. A pixel outside the surface is a fault
/// if a buffer would take it, and is then drawn to neither buffer.
pub open spec fn paint_plot(c: Canvas, plot: Plot, base: usize) -> Canvas {
    let tag = InstructionIndex { base_index: base, sub_index: plot.sub_index };
    if c.fault is Some || !(c.pic_active() || c.pri_active()) {
        c
    } else if !in_viewport(plot.x, plot.y) {
        Canvas {
            fault: Some(
                AgiError::Render(
                    RenderFault::PixelOutOfRange { x: plot.x as usize, y: plot.y as usize },
                ),
            ),
            ..c
        }
    } else {
        Canvas {
            pic: if c.pic_active() {
                Some(c.pic->0.plot(plot.x, plot.y, palette(c.pic_color->0), tag))
            } else {
                c.pic
            },
            pri: if c.pri_active() {
                Some(c.pri->0.plot(plot.x, plot.y, palette(c.pri_color->0), tag))
            } else {
                c.pri
            },
            ..c
        }
    }
}

// ---------------------------------------------------------------------
// Rounding
// ---------------------------------------------------------------------

/// The fraction `num / den` rounded to a whole number: down if its
/// fractional part is below 0.499, or at most 0.501 when travelling in
/// the negative direction, and up otherwise.
pub open spec fn sierra_round_ratio(num: int, den: int, negative: bool) -> int
    recommends
        num >= 0,
        den > 0,
{
    let whole = num / den;
    let rest = num % den;
    if negative {
        if 1000 * rest <= 501 * den {
            whole
        } else {
            whole + 1
        }
    } else {
        if 1000 * rest < 499 * den {
            whole
        } else {
            whole + 1
        }
    }
}

/// Rounds the fraction `num / den`; `negative` says that the line travels
/// towards smaller coordinates.
pub fn sierra_round(num: u32, den: u32, negative: bool) -> (r: usize)
    requires
        den > 0,
    ensures
        r == sierra_round_ratio(num as int, den as int, negative),
{
    let whole: u32 = num / den;
    let rest: u64 = (num % den) as u64;
    let wide: u64 = den as u64;
    let down: bool = if negative {
        1000 * rest <= 501 * wide
    } else {
        1000 * rest < 499 * wide
    };
    if down {
        whole as usize
    } else {
        assert(whole <= num / 2) by (nonlinear_arith)
            requires
                whole == num / den,
                den >= 2,
        ;
        (whole + 1) as usize
    }
}

// ---------------------------------------------------------------------
// One segment
// ---------------------------------------------------------------------

/// Distance between two coordinates.
pub open spec fn span(from: int, to: int) -> int {
    if to >= from {
        to - from
    } else {
        from - to
    }
}

/// The coordinate `k` whole steps from `from` towards `to`.
pub open spec fn advance(from: int, to: int, k: int) -> int {
    if to >= from {
        from + k
    } else {
        from - k
    }
}

/// Whether the segment is stepped along x: it is wider than it is high.
pub open spec fn x_is_major(a: PosU8, b: PosU8) -> bool {
    span(a.x as int, b.x as int) > span(a.y as int, b.y as int)
}

/// Number of pixels stepped before the end point of the segment.
pub open spec fn segment_steps(a: PosU8, b: PosU8) -> int {
    if x_is_major(a, b) {
        span(a.x as int, b.x as int)
    } else {
        span(a.y as int, b.y as int)
    }
}

/// The coordinate on the minor axis after `k` of `n` steps from `from` to
/// `to`: the exact fraction, rounded.
pub open spec fn minor_at(from: int, to: int, n: int, k: int) -> int {
    sierra_round_ratio(from * n + k * (to - from), n, to < from)
}

/// The `k`-th stepped pixel of the segment from `a` to `b`.
pub open spec fn segment_plot(a: PosU8, b: PosU8, sub_index: usize, k: int) -> Plot {
    let n = segment_steps(a, b);
    if x_is_major(a, b) {
        Plot {
            x: advance(a.x as int, b.x as int, k),
            y: minor_at(a.y as int, b.y as int, n, k),
            sub_index,
        }
    } else {
        Plot {
            x: minor_at(a.x as int, b.x as int, n, k),
            y: advance(a.y as int, b.y as int, k),
            sub_index,
        }
    }
}

/// The canvas after the first `k` stepped pixels of a segment.
pub open spec fn paint_steps(c: Canvas, a: PosU8, b: PosU8, sub_index: usize, base: usize, k: int) -> Canvas
    decreases k,
{
    if k <= 0 {
        c
    } else {
        paint_plot(paint_steps(c, a, b, sub_index, base, k - 1), segment_plot(a, b, sub_index, k - 1), base)
    }
}

/// The canvas after a whole segment: its stepped pixels, then its end
/// point.
pub open spec fn paint_segment(c: Canvas, a: PosU8, b: PosU8, sub_index: usize, base: usize) -> Canvas {
    paint_plot(
        paint_steps(c, a, b, sub_index, base, segment_steps(a, b)),
        Plot { x: b.x as int, y: b.y as int, sub_index },
        base,
    )
}

/// The canvas after the first `segments` segments of a line through
/// `points`; segment `i` runs from point `i` to point `i + 1`.
pub open spec fn paint_polyline(c: Canvas, points: Seq<PosU8>, base: usize, segments: int) -> Canvas
    decreases segments,
{
    if segments <= 0 {
        c
    } else {
        paint_segment(
            paint_polyline(c, points, base, segments - 1),
            points[segments - 1],
            points[segments],
            (segments - 1) as usize,
            base,
        )
    }
}

/// The canvas after a line instruction: nothing for no points, one pixel
/// for one point, and otherwise a segment from each point to the next.
pub open spec fn paint_lines(c: Canvas, points: Seq<PosU8>, base: usize) -> Canvas {
    if points.len() == 0 {
        c
    } else if points.len() == 1 {
        paint_plot(c, Plot { x: points[0].x as int, y: points[0].y as int, sub_index: 0 }, base)
    } else {
        paint_polyline(c, points, base, points.len() - 1)
    }
}

/// Once drawing has met a fault, further stepped pixels change nothing.
pub proof fn lemma_steps_keep_fault(c: Canvas, a: PosU8, b: PosU8, sub_index: usize, base: usize, k: int, n: int)
    requires
        0 <= k <= n,
        paint_steps(c, a, b, sub_index, base, k).fault is Some,
    ensures
        paint_steps(c, a, b, sub_index, base, n) == paint_steps(c, a, b, sub_index, base, k),
    decreases n - k,
{
    if k < n {
        lemma_steps_keep_fault(c, a, b, sub_index, base, k, n - 1);
    }
}

/// A segment leaves a canvas with a fault as it is.
pub proof fn lemma_segment_keeps_fault(c: Canvas, a: PosU8, b: PosU8, sub_index: usize, base: usize)
    requires
        c.fault is Some,
    ensures
        paint_segment(c, a, b, sub_index, base) == c,
{
    lemma_steps_keep_fault(c, a, b, sub_index, base, 0, segment_steps(a, b));
}

/// Once drawing has met a fault, further segments change nothing.
pub proof fn lemma_polyline_keeps_fault(c: Canvas, points: Seq<PosU8>, base: usize, k: int, n: int)
    requires
        0 <= k <= n,
        paint_polyline(c, points, base, k).fault is Some,
    ensures
        paint_polyline(c, points, base, n) == paint_polyline(c, points, base, k),
    decreases n - k,
{
    if k < n {
        lemma_polyline_keeps_fault(c, points, base, k, n - 1);
        lemma_segment_keeps_fault(
            paint_polyline(c, points, base, n - 1),
            points[n - 1],
            points[n],
            (n - 1) as usize,
            base,
        );
    }
}

/// A line of a single point draws that one pixel and tags it as segment
/// 0; every other pixel of a buffer stays as it was.
pub proof fn lemma_single_point_line(c: Canvas, p: PosU8, base: usize)
    requires
        c.fault is None,
        in_viewport(p.x as int, p.y as int),
    ensures
        paint_lines(c, seq![p], base).fault is None,
        c.pic_active() ==> paint_lines(c, seq![p], base).pic == Some(
            c.pic->0.plot(
                p.x as int,
                p.y as int,
                palette(c.pic_color->0),
                InstructionIndex { base_index: base, sub_index: 0 },
            ),
        ),
        !c.pic_active() ==> paint_lines(c, seq![p], base).pic == c.pic,
        c.pri_active() ==> paint_lines(c, seq![p], base).pri == Some(
            c.pri->0.plot(
                p.x as int,
                p.y as int,
                palette(c.pri_color->0),
                InstructionIndex { base_index: base, sub_index: 0 },
            ),
        ),
        !c.pri_active() ==> paint_lines(c, seq![p], base).pri == c.pri,
{
}

/// The exact coordinate on the minor axis lies between its two ends, so
/// its numerator stays within `0` and `255 * n`.
proof fn lemma_minor_numerator(from: int, to: int, n: int, k: int)
    requires
        0 <= from <= 255,
        0 <= to <= 255,
        0 <= k <= n,
    ensures
        0 <= from * n + k * (to - from) <= 255 * n,
        from * n + (k + 1) * (to - from) == from * n + k * (to - from) + (to - from),
{
    assert(from * n + k * (to - from) == from * (n - k) + to * k) by (nonlinear_arith);
    assert(0 <= from * (n - k) <= 255 * (n - k)) by (nonlinear_arith)
        requires
            0 <= from <= 255,
            0 <= n - k,
    ;
    assert(0 <= to * k <= 255 * k) by (nonlinear_arith)
        requires
            0 <= to <= 255,
            0 <= k,
    ;
    assert((k + 1) * (to - from) == k * (to - from) + (to - from)) by (nonlinear_arith);
}

// ---------------------------------------------------------------------
// Drawing
// ---------------------------------------------------------------------

/// Draws one pixel to each buffer that is there and has a colour.
fn set_buffers_pixels(
    pic_buffer: &mut Option<PixelBuffer>,
    pic_color: Option<u8>,
    pri_buffer: &mut Option<PixelBuffer>,
    pri_color: Option<u8>,
    x: usize,
    y: usize,
    tag: InstructionIndex,
) -> (r: Result<(), AgiError>)
    ensures
        *final(pic_buffer) is Some == *old(pic_buffer) is Some,
        *final(pri_buffer) is Some == *old(pri_buffer) is Some,
        canvas_of(*final(pic_buffer), *final(pri_buffer), pic_color, pri_color, fault_of(r))
            == paint_plot(
            canvas_of(*old(pic_buffer), *old(pri_buffer), pic_color, pri_color, None),
            Plot { x: x as int, y: y as int, sub_index: tag.sub_index },
            tag.base_index,
        ),
{
    if let Some(buffer) = pic_buffer {
        match buffer.set_pixel(x, y, pic_color, tag) {
            Ok(()) => {},
            Err(e) => {
                return Err(e);
            },
        }
    }
    if let Some(buffer) = pri_buffer {
        match buffer.set_pixel(x, y, pri_color, tag) {
            Ok(()) => {},
            Err(e) => {
                return Err(e);
            },
        }
    }
    Ok(())
}

/// Draws the segment from `a` to `b` as segment `sub_index` of
/// instruction `instruction_index`.
fn draw_segment(
    a: PosU8,
    b: PosU8,
    sub_index: usize,
    pic_buffer: &mut Option<PixelBuffer>,
    pic_color: Option<u8>,
    pri_buffer: &mut Option<PixelBuffer>,
    pri_color: Option<u8>,
    instruction_index: usize,
) -> (r: Result<(), AgiError>)
    ensures
        *final(pic_buffer) is Some == *old(pic_buffer) is Some,
        *final(pri_buffer) is Some == *old(pri_buffer) is Some,
        canvas_of(*final(pic_buffer), *final(pri_buffer), pic_color, pri_color, fault_of(r))
            == paint_segment(
            canvas_of(*old(pic_buffer), *old(pri_buffer), pic_color, pri_color, None),
            a,
            b,
            sub_index,
            instruction_index,
        ),
{
    let ghost start = canvas_of(*pic_buffer, *pri_buffer, pic_color, pri_color, None);
    let tag = InstructionIndex::new_sub(instruction_index, sub_index);
    let x1: i32 = a.x as i32;
    let y1: i32 = a.y as i32;
    let x2: i32 = b.x as i32;
    let y2: i32 = b.y as i32;
    let width: i32 = x2 - x1;
    let height: i32 = y2 - y1;
    let abs_width: i32 = if width < 0 {
        -width
    } else {
        width
    };
    let abs_height: i32 = if height < 0 {
        -height
    } else {
        height
    };
    let wide: bool = abs_width > abs_height;
    let n: i32 = if wide {
        abs_width
    } else {
        abs_height
    };
    // `major` walks in whole steps; `num / n` is the exact minor coordinate.
    let mut major: i32 = if wide {
        x1
    } else {
        y1
    };
    let major_step: i32 = if wide {
        if width >= 0 {
            1
        } else {
            -1
        }
    } else {
        if height >= 0 {
            1
        } else {
            -1
        }
    };
    let minor_from: i32 = if wide {
        y1
    } else {
        x1
    };
    let minor_delta: i32 = if wide {
        height
    } else {
        width
    };
    proof {
        lemma_minor_numerator(minor_from as int, minor_from + minor_delta, n as int, 0);
    }
    let mut num: i32 = minor_from * n;
    let mut k: i32 = 0;
    while k < n
        invariant
            0 <= k <= n <= 255,
            n == segment_steps(a, b),
            wide == x_is_major(a, b),
            0 <= minor_from <= 255,
            0 <= minor_from + minor_delta <= 255,
            wide ==> minor_from == a.y && minor_delta == b.y - a.y,
            !wide ==> minor_from == a.x && minor_delta == b.x - a.x,
            wide ==> major == advance(a.x as int, b.x as int, k as int),
            !wide ==> major == advance(a.y as int, b.y as int, k as int),
            wide ==> major_step == (if b.x >= a.x { 1int } else { -1int }),
            !wide ==> major_step == (if b.y >= a.y { 1int } else { -1int }),
            0 <= major <= 255,
            num == minor_from * n + k * minor_delta,
            0 <= num <= 255 * n,
            tag == (InstructionIndex { base_index: instruction_index, sub_index }),
            start == canvas_of(*old(pic_buffer), *old(pri_buffer), pic_color, pri_color, None),
            *pic_buffer is Some == *old(pic_buffer) is Some,
            *pri_buffer is Some == *old(pri_buffer) is Some,
            canvas_of(*pic_buffer, *pri_buffer, pic_color, pri_color, None) == paint_steps(
                start,
                a,
                b,
                sub_index,
                instruction_index,
                k as int,
            ),
        decreases n - k,
    {
        let minor: usize = sierra_round(num as u32, n as u32, minor_delta < 0);
        let x: usize = if wide {
            major as usize
        } else {
            minor
        };
        let y: usize = if wide {
            minor
        } else {
            major as usize
        };
        match set_buffers_pixels(pic_buffer, pic_color, pri_buffer, pri_color, x, y, tag) {
            Ok(()) => {},
            Err(e) => {
                proof {
                    lemma_steps_keep_fault(start, a, b, sub_index, instruction_index, k + 1, n as int);
                }
                return Err(e);
            },
        }
        proof {
            lemma_minor_numerator(minor_from as int, minor_from + minor_delta, n as int, k + 1);
            lemma_minor_numerator(minor_from as int, minor_from + minor_delta, n as int, k as int);
        }
        major = major + major_step;
        num = num + minor_delta;
        k = k + 1;
    }
    set_buffers_pixels(pic_buffer, pic_color, pri_buffer, pri_color, b.x as usize, b.y as usize, tag)
}

/// Draws a line through `lines` to the buffers that are there and have a
/// colour, tagging each pixel with the instruction and its segment.
///
/// Stops at the first pixel outside the surface and reports it; what was
/// drawn before it stays.
pub fn draw_pixel_lines(
    lines: &Vec<PosU8>,
    pic_buffer: &mut Option<PixelBuffer>,
    pic_color: Option<u8>,
    pri_buffer: &mut Option<PixelBuffer>,
    pri_color: Option<u8>,
    instruction_index: usize,
) -> (r: Result<(), AgiError>)
    ensures
        *final(pic_buffer) is Some == *old(pic_buffer) is Some,
        *final(pri_buffer) is Some == *old(pri_buffer) is Some,
        canvas_of(*final(pic_buffer), *final(pri_buffer), pic_color, pri_color, fault_of(r))
            == paint_lines(
            canvas_of(*old(pic_buffer), *old(pri_buffer), pic_color, pri_color, None),
            lines@,
            instruction_index,
        ),
{
    let ghost start = canvas_of(*pic_buffer, *pri_buffer, pic_color, pri_color, None);
    if lines.len() == 0 {
        return Ok(());
    }
    if lines.len() == 1 {
        return set_buffers_pixels(
            pic_buffer,
            pic_color,
            pri_buffer,
            pri_color,
            lines[0].x as usize,
            lines[0].y as usize,
            InstructionIndex::new_sub(instruction_index, 0),
        );
    }
    let mut point_index: usize = 1;
    while point_index < lines.len()
        invariant
            1 <= point_index <= lines@.len(),
            start == canvas_of(*old(pic_buffer), *old(pri_buffer), pic_color, pri_color, None),
            *pic_buffer is Some == *old(pic_buffer) is Some,
            *pri_buffer is Some == *old(pri_buffer) is Some,
            canvas_of(*pic_buffer, *pri_buffer, pic_color, pri_color, None) == paint_polyline(
                start,
                lines@,
                instruction_index,
                point_index - 1,
            ),
        decreases lines@.len() - point_index,
    {
        let line_index: usize = point_index - 1;
        match draw_segment(
            lines[line_index],
            lines[point_index],
            line_index,
            pic_buffer,
            pic_color,
            pri_buffer,
            pri_color,
            instruction_index,
        ) {
            Ok(()) => {},
            Err(e) => {
                proof {
                    lemma_polyline_keeps_fault(
                        start,
                        lines@,
                        instruction_index,
                        point_index as int,
                        lines@.len() - 1,
                    );
                }
                return Err(e);
            },
        }
        point_index += 1;
    }
    Ok(())
}

} // verus!
