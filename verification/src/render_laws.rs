//! What holds of every rendering.

use vstd::prelude::*;
use crate::common::AgiError;
use crate::common::PIC_BUFFER_BASE_COLOR;
use crate::common::PRI_BUFFER_BASE_COLOR;
use crate::fill::paint_fill;
use crate::fill::FillEdge;
use crate::inside::all_inside;
use crate::inside::lemma_fill_inside;
use crate::inside::lemma_lines_inside;
use crate::palette::palette;
use crate::pic::InstructionModel;
use crate::pic_render::first_scene;
use crate::pic_render::is_render_of;
use crate::pic_render::lemma_render_steps_keep_fault;
use crate::pic_render::outline_edges;
use crate::pic_render::outline_lists;
use crate::pic_render::render_step;
use crate::pic_render::render_steps;
use crate::pic_render::rendered;
use crate::pic_render::Outline;
use crate::pic_render::RenderOptions;
use crate::pixel_buffer::PixelBuffer;
use crate::tags::canvas_below;
use crate::tags::edges_below;
use crate::tags::lemma_blank_below;
use crate::tags::lemma_buffer_below_grows;
use crate::tags::lemma_paint_fill_below;
use crate::tags::lemma_paint_lines_below;
use crate::tags::lists_below;
use crate::vector::edge_line;

verus! {

/// The two programs have the same first `count` instructions.
pub open spec fn same_start(p: Seq<InstructionModel>, q: Seq<InstructionModel>, count: int) -> bool {
    0 <= count <= p.len() && count <= q.len() && forall|i: int|
        0 <= i < count ==> #[trigger] p[i] == q[i]
}

/// An edge that names an instruction among the common start of two
/// programs has the same line in both.
pub proof fn lemma_edge_line_same(
    edge: FillEdge,
    p: Seq<InstructionModel>,
    q: Seq<InstructionModel>,
    count: int,
)
    requires
        same_start(p, q, count),
        edge is Line ==> edge->Line_0.base_index < count,
    ensures
        edge_line(edge, p) == edge_line(edge, q),
{
}

proof fn lemma_outline_edges_same(
    o: Outline,
    edges: Seq<FillEdge>,
    p: Seq<InstructionModel>,
    q: Seq<InstructionModel>,
    color: u8,
    show: bool,
    n: int,
    count: int,
)
    requires
        same_start(p, q, count),
        edges_below(edges, count),
        n <= edges.len(),
    ensures
        outline_edges(o, edges, p, color, show, n) == outline_edges(o, edges, q, color, show, n),
    decreases n,
{
    if n > 0 {
        lemma_outline_edges_same(o, edges, p, q, color, show, n - 1, count);
        lemma_edge_line_same(edges[n - 1], p, q, count);
    }
}

proof fn lemma_outline_lists_same(
    o: Outline,
    lists: Seq<Seq<FillEdge>>,
    p: Seq<InstructionModel>,
    q: Seq<InstructionModel>,
    color: u8,
    show: bool,
    n: int,
    count: int,
)
    requires
        same_start(p, q, count),
        lists_below(lists, count),
        n <= lists.len(),
    ensures
        outline_lists(o, lists, p, color, show, n) == outline_lists(o, lists, q, color, show, n),
    decreases n,
{
    if n > 0 {
        lemma_outline_lists_same(o, lists, p, q, color, show, n - 1, count);
        lemma_outline_edges_same(
            outline_lists(o, lists, p, color, show, n - 1),
            lists[n - 1],
            p,
            q,
            color,
            show,
            lists[n - 1].len() as int,
            count,
        );
    }
}

/// After `k` instructions every tag in a buffer names one of them.
pub proof fn lemma_render_steps_below(
    p: Seq<InstructionModel>,
    options: RenderOptions,
    has_pic: bool,
    has_pri: bool,
    has_vectors: bool,
    k: int,
)
    requires
        0 <= k <= p.len(),
    ensures
        canvas_below(
            render_steps(first_scene(has_pic, has_pri, has_vectors), p, options, k).canvas,
            k,
        ),
    decreases k,
{
    let start = first_scene(has_pic, has_pri, has_vectors);
    if k == 0 {
        lemma_blank_below(palette(PIC_BUFFER_BASE_COLOR), 0);
        lemma_blank_below(palette(PRI_BUFFER_BASE_COLOR), 0);
    } else {
        lemma_render_steps_below(p, options, has_pic, has_pri, has_vectors, k - 1);
        let s = render_steps(start, p, options, k - 1);
        if s.canvas.pic is Some {
            lemma_buffer_below_grows(s.canvas.pic->0, k - 1, k);
        }
        if s.canvas.pri is Some {
            lemma_buffer_below_grows(s.canvas.pri->0, k - 1, k);
        }
        if s.canvas.fault is None {
            match p[k - 1] {
                InstructionModel::DrawLines(_, points) => {
                    lemma_paint_lines_below(s.canvas, points, (k - 1) as usize, k);
                },
                InstructionModel::Fill(_, points) => {
                    lemma_paint_fill_below(s.canvas, points, (k - 1) as usize, k);
                },
                _ => {},
            }
        }
    }
}

/// With every instruction shown, the replay of the first `k`
/// instructions is the same for two programs that share them.
pub proof fn lemma_render_steps_same(
    p: Seq<InstructionModel>,
    q: Seq<InstructionModel>,
    options: RenderOptions,
    has_pic: bool,
    has_pri: bool,
    has_vectors: bool,
    k: int,
)
    requires
        !options.render_only_selected_instruction,
        same_start(p, q, k),
    ensures
        render_steps(first_scene(has_pic, has_pri, has_vectors), p, options, k) == render_steps(
            first_scene(has_pic, has_pri, has_vectors),
            q,
            options,
            k,
        ),
    decreases k,
{
    let start = first_scene(has_pic, has_pri, has_vectors);
    if k > 0 {
        lemma_render_steps_same(p, q, options, has_pic, has_pri, has_vectors, k - 1);
        lemma_render_steps_below(p, options, has_pic, has_pri, has_vectors, k - 1);
        let s = render_steps(start, p, options, k - 1);
        if s.canvas.fault is None {
            match p[k - 1] {
                InstructionModel::Fill(_, points) => {
                    if s.canvas.pic is Some {
                        lemma_buffer_below_grows(s.canvas.pic->0, k - 1, k);
                    }
                    if s.canvas.pri is Some {
                        lemma_buffer_below_grows(s.canvas.pri->0, k - 1, k);
                    }
                    lemma_paint_fill_below(s.canvas, points, (k - 1) as usize, k);
                    let trace = paint_fill(s.canvas, points, (k - 1) as usize);
                    if s.vectors is Some && s.canvas.pic_color is Some {
                        lemma_outline_lists_same(
                            Outline { paths: s.vectors->0, fault: None },
                            trace.pic_edges,
                            p,
                            q,
                            s.canvas.pic_color->0,
                            options.show_fill_outlines,
                            trace.pic_edges.len() as int,
                            k,
                        );
                    }
                },
                _ => {},
            }
        }
    }
}

/// An instruction that sets a colour, switches drawing off or is only
/// recorded draws nothing: rendering a program that ends with one gives
/// the same buffers, the same paths and the same fault as rendering the
/// program without it. This is stated of renderings that show every
/// instruction.
pub proof fn lemma_last_instruction_draws_nothing(
    program: Seq<InstructionModel>,
    options: RenderOptions,
    has_pic: bool,
    has_pri: bool,
    has_vectors: bool,
)
    requires
        program.len() > 0,
        program.last() is SetColor || program.last() is Unimplemented,
        !options.render_only_selected_instruction,
    ensures
        rendered(program, options, has_pic, has_pri, has_vectors).canvas.pic == rendered(
            program.drop_last(),
            options,
            has_pic,
            has_pri,
            has_vectors,
        ).canvas.pic,
        rendered(program, options, has_pic, has_pri, has_vectors).canvas.pri == rendered(
            program.drop_last(),
            options,
            has_pic,
            has_pri,
            has_vectors,
        ).canvas.pri,
        rendered(program, options, has_pic, has_pri, has_vectors).vectors == rendered(
            program.drop_last(),
            options,
            has_pic,
            has_pri,
            has_vectors,
        ).vectors,
        rendered(program, options, has_pic, has_pri, has_vectors).canvas.fault == rendered(
            program.drop_last(),
            options,
            has_pic,
            has_pri,
            has_vectors,
        ).canvas.fault,
{
    lemma_render_steps_same(
        program,
        program.drop_last(),
        options,
        has_pic,
        has_pri,
        has_vectors,
        program.len() - 1,
    );
}

/// Rendering is a function of the program and the place where it stops:
/// two results of rendering the same program up to the same instruction
/// are both faults or both pairs of buffers, with the same fault or with
/// the same pixels and tags.
pub proof fn lemma_render_is_deterministic(
    program: Seq<InstructionModel>,
    cutoff: usize,
    first: Result<(PixelBuffer, PixelBuffer), AgiError>,
    second: Result<(PixelBuffer, PixelBuffer), AgiError>,
)
    requires
        is_render_of(first, program, cutoff),
        is_render_of(second, program, cutoff),
    ensures
        first is Ok == second is Ok,
        first is Err ==> first->Err_0 == second->Err_0,
        first is Ok ==> first->Ok_0.0@ == second->Ok_0.0@ && first->Ok_0.1@ == second->Ok_0.1@,
{
}

/// Every point that the program draws through or fills from lies on the
/// surface.
pub open spec fn program_inside(program: Seq<InstructionModel>) -> bool {
    forall|i: int|
        0 <= i < program.len() ==> match #[trigger] program[i] {
            InstructionModel::DrawLines(_, points) => all_inside(points),
            InstructionModel::Fill(_, points) => all_inside(points),
            _ => true,
        }
}

proof fn lemma_render_steps_succeed(
    program: Seq<InstructionModel>,
    options: RenderOptions,
    has_pic: bool,
    has_pri: bool,
    k: int,
)
    requires
        program_inside(program),
        0 <= k <= program.len(),
    ensures
        render_steps(first_scene(has_pic, has_pri, false), program, options, k).canvas.fault is None,
        render_steps(first_scene(has_pic, has_pri, false), program, options, k).vectors is None,
    decreases k,
{
    if k > 0 {
        lemma_render_steps_succeed(program, options, has_pic, has_pri, k - 1);
        let s = render_steps(first_scene(has_pic, has_pri, false), program, options, k - 1);
        match program[k - 1] {
            InstructionModel::DrawLines(_, points) => {
                lemma_lines_inside(s.canvas, points, (k - 1) as usize);
            },
            InstructionModel::Fill(_, points) => {
                lemma_fill_inside(s.canvas, points, (k - 1) as usize);
            },
            _ => {},
        }
    }
}

/// Rendering the buffers of a program that stays on the surface always
/// succeeds.
pub proof fn lemma_render_succeeds(
    program: Seq<InstructionModel>,
    options: RenderOptions,
    has_pic: bool,
    has_pri: bool,
)
    requires
        program_inside(program),
    ensures
        rendered(program, options, has_pic, has_pri, false).canvas.fault is None,
{
    lemma_render_steps_succeed(program, options, has_pic, has_pri, program.len() as int);
}

proof fn lemma_outline_edges_fault(
    a: Outline,
    b: Outline,
    edges: Seq<FillEdge>,
    program: Seq<InstructionModel>,
    color: u8,
    show_a: bool,
    show_b: bool,
    n: int,
)
    requires
        a.fault == b.fault,
    ensures
        outline_edges(a, edges, program, color, show_a, n).fault == outline_edges(
            b,
            edges,
            program,
            color,
            show_b,
            n,
        ).fault,
    decreases n,
{
    if n > 0 {
        lemma_outline_edges_fault(a, b, edges, program, color, show_a, show_b, n - 1);
    }
}

proof fn lemma_outline_lists_fault(
    a: Outline,
    b: Outline,
    lists: Seq<Seq<FillEdge>>,
    program: Seq<InstructionModel>,
    color: u8,
    show_a: bool,
    show_b: bool,
    n: int,
)
    requires
        a.fault == b.fault,
    ensures
        outline_lists(a, lists, program, color, show_a, n).fault == outline_lists(
            b,
            lists,
            program,
            color,
            show_b,
            n,
        ).fault,
    decreases n,
{
    if n > 0 {
        lemma_outline_lists_fault(a, b, lists, program, color, show_a, show_b, n - 1);
        lemma_outline_edges_fault(
            outline_lists(a, lists, program, color, show_a, n - 1),
            outline_lists(b, lists, program, color, show_b, n - 1),
            lists[n - 1],
            program,
            color,
            show_a,
            show_b,
            lists[n - 1].len() as int,
        );
    }
}

/// The options with `show_fill_outlines` set to `show`.
pub open spec fn with_outlines(options: RenderOptions, show: bool) -> RenderOptions {
    RenderOptions { show_fill_outlines: show, ..options }
}

proof fn lemma_outlines_keep_canvas(
    program: Seq<InstructionModel>,
    options: RenderOptions,
    has_pic: bool,
    has_pri: bool,
    has_vectors: bool,
    k: int,
)
    requires
        0 <= k <= program.len(),
    ensures
        render_steps(
            first_scene(has_pic, has_pri, has_vectors),
            program,
            with_outlines(options, true),
            k,
        ).canvas == render_steps(
            first_scene(has_pic, has_pri, has_vectors),
            program,
            with_outlines(options, false),
            k,
        ).canvas,
        render_steps(
            first_scene(has_pic, has_pri, has_vectors),
            program,
            with_outlines(options, true),
            k,
        ).vectors is Some == has_vectors,
        render_steps(
            first_scene(has_pic, has_pri, has_vectors),
            program,
            with_outlines(options, false),
            k,
        ).vectors is Some == has_vectors,
    decreases k,
{
    if k > 0 {
        lemma_outlines_keep_canvas(program, options, has_pic, has_pri, has_vectors, k - 1);
        let start = first_scene(has_pic, has_pri, has_vectors);
        let a = render_steps(start, program, with_outlines(options, true), k - 1);
        let b = render_steps(start, program, with_outlines(options, false), k - 1);
        if a.canvas.fault is None {
            match program[k - 1] {
                InstructionModel::Fill(_, points) => {
                    let trace = paint_fill(a.canvas, points, (k - 1) as usize);
                    if a.vectors is Some && a.canvas.pic_color is Some {
                        lemma_outline_lists_fault(
                            Outline { paths: a.vectors->0, fault: None },
                            Outline { paths: b.vectors->0, fault: None },
                            trace.pic_edges,
                            program,
                            a.canvas.pic_color->0,
                            true,
                            false,
                            trace.pic_edges.len() as int,
                        );
                    }
                },
                _ => {},
            }
        }
    }
}

/// Showing the outlines of fills changes no pixel, no tag and no fault:
/// the edges of a fill only ever add paths.
pub proof fn lemma_outlines_change_no_pixel(
    program: Seq<InstructionModel>,
    options: RenderOptions,
    has_pic: bool,
    has_pri: bool,
    has_vectors: bool,
)
    ensures
        rendered(program, with_outlines(options, true), has_pic, has_pri, has_vectors).canvas
            == rendered(
            program,
            with_outlines(options, false),
            has_pic,
            has_pri,
            has_vectors,
        ).canvas,
{
    lemma_outlines_keep_canvas(program, options, has_pic, has_pri, has_vectors, program.len() as int);
}

proof fn lemma_paths_keep_canvas(
    program: Seq<InstructionModel>,
    options: RenderOptions,
    has_pic: bool,
    has_pri: bool,
    k: int,
)
    requires
        0 <= k <= program.len(),
        render_steps(first_scene(has_pic, has_pri, true), program, options, k).canvas.fault is None,
    ensures
        render_steps(first_scene(has_pic, has_pri, true), program, options, k).canvas
            == render_steps(first_scene(has_pic, has_pri, false), program, options, k).canvas,
        render_steps(first_scene(has_pic, has_pri, false), program, options, k).vectors is None,
    decreases k,
{
    if k > 0 {
        let with = first_scene(has_pic, has_pri, true);
        let a = render_steps(with, program, options, k - 1);
        if a.canvas.fault is Some {
            lemma_render_steps_keep_fault(with, program, options, k - 1, k);
        }
        lemma_paths_keep_canvas(program, options, has_pic, has_pri, k - 1);
    }
}

/// Asking for paths changes no pixel and no tag of a rendering that
/// succeeds.
pub proof fn lemma_paths_change_no_pixel(
    program: Seq<InstructionModel>,
    options: RenderOptions,
    has_pic: bool,
    has_pri: bool,
)
    requires
        rendered(program, options, has_pic, has_pri, true).canvas.fault is None,
    ensures
        rendered(program, options, has_pic, has_pri, true).canvas == rendered(
            program,
            options,
            has_pic,
            has_pri,
            false,
        ).canvas,
{
    lemma_paths_keep_canvas(program, options, has_pic, has_pri, program.len() as int);
}

} // verus!
