//! Replaying a program onto the picture buffer, the priority buffer and
//! the list of paths.
//!
//! Every rendering starts from buffers in their background colours with
//! both colours in force, so the result depends on the program and the
//! options alone.

use vstd::prelude::*;
use vstd::slice::slice_subrange;
use crate::common::AgiError;
use crate::common::PIC_BUFFER_BASE_COLOR;
use crate::common::PRI_BUFFER_BASE_COLOR;
use crate::fill::edge_lists;
use crate::fill::paint_fill;
use crate::fill::pixel_fill;
use crate::fill::FillEdge;
use crate::line::buffer_model;
use crate::line::canvas_of;
use crate::line::draw_pixel_lines;
use crate::line::fault_of;
use crate::line::paint_lines;
use crate::line::Canvas;
use crate::palette::get_color;
use crate::palette::palette;
use crate::pic::program_model;
use crate::pic::DerivedPicRenderInstruction;
use crate::pic::InstructionModel;
use crate::pic::PicResource;
use crate::pic::PictureBufferType;
use crate::pixel_buffer::BufferModel;
use crate::pixel_buffer::PixelBuffer;
use crate::vector::edge_line;
use crate::vector::PathModel;
use crate::vector::ShapeBuffer;
use crate::vector::VectorPath;

verus! {

/// How to render.
#[derive(Debug, Copy, Clone)]
pub struct RenderOptions {
    /// Show only what the last instruction of the program drew.
    pub render_only_selected_instruction: bool,
    /// Add the outlines of fills to the paths.
    pub show_fill_outlines: bool,
}

impl Default for RenderOptions {
    fn default() -> (options: Self)
        ensures
            !options.render_only_selected_instruction,
            !options.show_fill_outlines,
    {
        RenderOptions { render_only_selected_instruction: false, show_fill_outlines: false }
    }
}

// ---------------------------------------------------------------------
// Outlines of fills
// ---------------------------------------------------------------------

/// The paths drawn so far and the fault that stopped drawing, if any.
pub ghost struct Outline {
    pub paths: Seq<PathModel>,
    pub fault: Option<AgiError>,
}

/// The outline after one edge: the edge is resolved to its line, which
/// is a fault if it has none, and the line is added as a path if
/// outlines are shown.
pub open spec fn outline_edge(
    o: Outline,
    edge: FillEdge,
    program: Seq<InstructionModel>,
    color: u8,
    show: bool,
) -> Outline {
    if o.fault is Some {
        o
    } else {
        match edge_line(edge, program) {
            Err(e) => Outline { fault: Some(e), ..o },
            Ok(ends) => if show {
                Outline {
                    paths: o.paths.push(
                        PathModel { points: seq![ends.0, ends.1], color: palette(color) },
                    ),
                    ..o
                }
            } else {
                o
            },
        }
    }
}

/// The outline after the first `count` edges of one fill.
pub open spec fn outline_edges(
    o: Outline,
    edges: Seq<FillEdge>,
    program: Seq<InstructionModel>,
    color: u8,
    show: bool,
    count: int,
) -> Outline
    decreases count,
{
    if count <= 0 {
        o
    } else {
        outline_edge(
            outline_edges(o, edges, program, color, show, count - 1),
            edges[count - 1],
            program,
            color,
            show,
        )
    }
}

/// The outline after all edges of the first `count` fills.
pub open spec fn outline_lists(
    o: Outline,
    lists: Seq<Seq<FillEdge>>,
    program: Seq<InstructionModel>,
    color: u8,
    show: bool,
    count: int,
) -> Outline
    decreases count,
{
    if count <= 0 {
        o
    } else {
        outline_edges(
            outline_lists(o, lists, program, color, show, count - 1),
            lists[count - 1],
            program,
            color,
            show,
            lists[count - 1].len() as int,
        )
    }
}

/// Once an edge had no line, further edges change nothing.
pub proof fn lemma_outline_edges_keep_fault(
    o: Outline,
    edges: Seq<FillEdge>,
    program: Seq<InstructionModel>,
    color: u8,
    show: bool,
    k: int,
    n: int,
)
    requires
        0 <= k <= n,
        outline_edges(o, edges, program, color, show, k).fault is Some,
    ensures
        outline_edges(o, edges, program, color, show, n) == outline_edges(
            o,
            edges,
            program,
            color,
            show,
            k,
        ),
    decreases n - k,
{
    if k < n {
        lemma_outline_edges_keep_fault(o, edges, program, color, show, k, n - 1);
    }
}

/// Once an edge had no line, further fills change nothing.
pub proof fn lemma_outline_lists_keep_fault(
    o: Outline,
    lists: Seq<Seq<FillEdge>>,
    program: Seq<InstructionModel>,
    color: u8,
    show: bool,
    k: int,
    n: int,
)
    requires
        0 <= k <= n,
        outline_lists(o, lists, program, color, show, k).fault is Some,
    ensures
        outline_lists(o, lists, program, color, show, n) == outline_lists(
            o,
            lists,
            program,
            color,
            show,
            k,
        ),
    decreases n - k,
{
    if k < n {
        lemma_outline_lists_keep_fault(o, lists, program, color, show, k, n - 1);
        lemma_outline_edges_keep_fault(
            outline_lists(o, lists, program, color, show, n - 1),
            lists[n - 1],
            program,
            color,
            show,
            0,
            lists[n - 1].len() as int,
        );
    }
}

/// Resolves every edge of every fill and, if outlines are shown, adds
/// its line to `vectors` in palette entry `color`. Stops at the first
/// edge that has no line.
pub fn outline_fill(
    fills: &Vec<Vec<FillEdge>>,
    instructions: &[DerivedPicRenderInstruction],
    color: u8,
    show_fill_outlines: bool,
    vectors: &mut ShapeBuffer,
) -> (r: Result<(), AgiError>)
    ensures
        (Outline { paths: final(vectors)@, fault: fault_of(r) }) == outline_lists(
            Outline { paths: old(vectors)@, fault: None },
            edge_lists(fills@),
            program_model(instructions@),
            color,
            show_fill_outlines,
            fills@.len() as int,
        ),
{
    let ghost start = Outline { paths: vectors@, fault: None };
    let ghost lists = edge_lists(fills@);
    let ghost program = program_model(instructions@);
    let mut fill_index: usize = 0;
    while fill_index < fills.len()
        invariant
            fill_index <= fills@.len(),
            lists == edge_lists(fills@),
            program == program_model(instructions@),
            start == (Outline { paths: old(vectors)@, fault: None }),
            (Outline { paths: vectors@, fault: None }) == outline_lists(
                start,
                lists,
                program,
                color,
                show_fill_outlines,
                fill_index as int,
            ),
        decreases fills@.len() - fill_index,
    {
        let edges: &Vec<FillEdge> = &fills[fill_index];
        let ghost before = outline_lists(start, lists, program, color, show_fill_outlines, fill_index as int);
        let mut edge_index: usize = 0;
        while edge_index < edges.len()
            invariant
                edge_index <= edges@.len(),
                fill_index < fills@.len(),
                lists == edge_lists(fills@),
                lists[fill_index as int] == edges@,
                program == program_model(instructions@),
                start == (Outline { paths: old(vectors)@, fault: None }),
                before == outline_lists(
                    start,
                    lists,
                    program,
                    color,
                    show_fill_outlines,
                    fill_index as int,
                ),
                (Outline { paths: vectors@, fault: None }) == outline_edges(
                    before,
                    edges@,
                    program,
                    color,
                    show_fill_outlines,
                    edge_index as int,
                ),
            decreases edges@.len() - edge_index,
        {
            let edge: FillEdge = edges[edge_index];
            match edge.to_line(instructions) {
                Ok(line) => {
                    if show_fill_outlines {
                        vectors.add_path(VectorPath::from_line(line, color));
                    }
                },
                Err(e) => {
                    proof {
                        lemma_outline_edges_keep_fault(
                            before,
                            edges@,
                            program,
                            color,
                            show_fill_outlines,
                            edge_index + 1,
                            edges@.len() as int,
                        );
                        lemma_outline_lists_keep_fault(
                            start,
                            lists,
                            program,
                            color,
                            show_fill_outlines,
                            fill_index + 1,
                            fills@.len() as int,
                        );
                    }
                    return Err(e);
                },
            }
            edge_index += 1;
        }
        fill_index += 1;
    }
    Ok(())
}

// ---------------------------------------------------------------------
// The replay
// ---------------------------------------------------------------------

/// Everything a rendering acts on: the canvas and the paths, if paths
/// are asked for.
pub ghost struct Scene {
    pub canvas: Canvas,
    pub vectors: Option<Seq<PathModel>>,
}

/// Whether instruction `i` adds paths: always, unless only the last
/// instruction of the program is to be shown.
pub open spec fn adds_paths(program: Seq<InstructionModel>, i: int, options: RenderOptions) -> bool {
    !options.render_only_selected_instruction || i == program.len() - 1
}

/// The scene after instruction `i` of the program.
///
/// A colour instruction changes the colour in force for its buffer. A
/// line instruction draws its pixels and adds its points as one path. A
/// fill instruction fills from its points and adds the outline of each
/// fill of the picture buffer. Paths are added in the colour in force
/// for the picture buffer, and only while it has one. After a fault
/// nothing changes any more.
pub open spec fn render_step(
    s: Scene,
    program: Seq<InstructionModel>,
    i: int,
    options: RenderOptions,
) -> Scene {
    let with_paths = adds_paths(program, i, options) && s.vectors is Some && s.canvas.pic_color
        is Some;
    if s.canvas.fault is Some {
        s
    } else {
        match program[i] {
            InstructionModel::SetColor(_, buffer, color) => match buffer {
                PictureBufferType::Picture => Scene {
                    canvas: Canvas { pic_color: color, ..s.canvas },
                    ..s
                },
                PictureBufferType::Priority => Scene {
                    canvas: Canvas { pri_color: color, ..s.canvas },
                    ..s
                },
            },
            InstructionModel::DrawLines(_, points) => {
                let canvas = paint_lines(s.canvas, points, i as usize);
                if canvas.fault is None && with_paths {
                    Scene {
                        canvas,
                        vectors: Some(
                            s.vectors->0.push(
                                PathModel { points, color: palette(s.canvas.pic_color->0) },
                            ),
                        ),
                    }
                } else {
                    Scene { canvas, ..s }
                }
            },
            InstructionModel::Fill(_, points) => {
                let trace = paint_fill(s.canvas, points, i as usize);
                if trace.canvas.fault is None && with_paths {
                    let outline = outline_lists(
                        Outline { paths: s.vectors->0, fault: None },
                        trace.pic_edges,
                        program,
                        s.canvas.pic_color->0,
                        options.show_fill_outlines,
                        trace.pic_edges.len() as int,
                    );
                    Scene {
                        canvas: Canvas { fault: outline.fault, ..trace.canvas },
                        vectors: Some(outline.paths),
                    }
                } else {
                    Scene { canvas: trace.canvas, ..s }
                }
            },
            InstructionModel::Unimplemented(_) => s,
        }
    }
}

/// The scene after the first `count` instructions.
pub open spec fn render_steps(
    s: Scene,
    program: Seq<InstructionModel>,
    options: RenderOptions,
    count: int,
) -> Scene
    decreases count,
{
    if count <= 0 {
        s
    } else {
        render_step(render_steps(s, program, options, count - 1), program, count - 1, options)
    }
}

/// The scene that every rendering starts from: the buffers that are
/// asked for in their background colours with nothing drawn, both colours
/// in force, and no paths.
pub open spec fn first_scene(has_pic: bool, has_pri: bool, has_vectors: bool) -> Scene {
    Scene {
        canvas: Canvas {
            pic: if has_pic {
                Some(BufferModel::blank(palette(PIC_BUFFER_BASE_COLOR)))
            } else {
                None
            },
            pri: if has_pri {
                Some(BufferModel::blank(palette(PRI_BUFFER_BASE_COLOR)))
            } else {
                None
            },
            pic_color: Some(PIC_BUFFER_BASE_COLOR),
            pri_color: Some(PRI_BUFFER_BASE_COLOR),
            fault: None,
        },
        vectors: if has_vectors {
            Some(Seq::empty())
        } else {
            None
        },
    }
}

/// The buffer with what other instructions than `index` drew hidden
/// behind palette entry `background`.
pub open spec fn isolated(buffer: Option<BufferModel>, index: usize, background: u8) -> Option<
    BufferModel,
> {
    match buffer {
        Some(b) => Some(b.isolate(index, palette(background))),
        None => None,
    }
}

/// What rendering `program` gives: the replay of all its instructions
/// from the first scene. If only the last instruction is to be shown and
/// there was no fault, what the others drew is hidden at the end.
pub open spec fn rendered(
    program: Seq<InstructionModel>,
    options: RenderOptions,
    has_pic: bool,
    has_pri: bool,
    has_vectors: bool,
) -> Scene {
    let end = render_steps(
        first_scene(has_pic, has_pri, has_vectors),
        program,
        options,
        program.len() as int,
    );
    if options.render_only_selected_instruction && end.canvas.fault is None && program.len() > 0 {
        let latest = (program.len() - 1) as usize;
        Scene {
            canvas: Canvas {
                pic: isolated(end.canvas.pic, latest, PIC_BUFFER_BASE_COLOR),
                pri: isolated(end.canvas.pri, latest, PRI_BUFFER_BASE_COLOR),
                ..end.canvas
            },
            ..end
        }
    } else {
        end
    }
}

/// Once the replay has met a fault, further instructions change nothing.
pub proof fn lemma_render_steps_keep_fault(
    s: Scene,
    program: Seq<InstructionModel>,
    options: RenderOptions,
    k: int,
    n: int,
)
    requires
        0 <= k <= n,
        render_steps(s, program, options, k).canvas.fault is Some,
    ensures
        render_steps(s, program, options, n) == render_steps(s, program, options, k),
    decreases n - k,
{
    if k < n {
        lemma_render_steps_keep_fault(s, program, options, k, n - 1);
    }
}

/// The paths of a buffer that may be absent.
pub open spec fn paths_of(vectors: Option<ShapeBuffer>) -> Option<Seq<PathModel>> {
    match vectors {
        Some(v) => Some(v@),
        None => None,
    }
}

/// Renders `instructions` to each buffer that is given. What a buffer
/// held before does not matter: it is cleared first.
///
/// Stops at the first fault and reports it; the buffers then hold what
/// was drawn before it.
pub fn render_to_buffers(
    instructions: &[DerivedPicRenderInstruction],
    render_options: &RenderOptions,
    pic_buffer: &mut Option<PixelBuffer>,
    pri_buffer: &mut Option<PixelBuffer>,
    pic_vectors: &mut Option<ShapeBuffer>,
) -> (r: Result<(), AgiError>)
    ensures
        *final(pic_buffer) is Some == *old(pic_buffer) is Some,
        *final(pri_buffer) is Some == *old(pri_buffer) is Some,
        *final(pic_vectors) is Some == *old(pic_vectors) is Some,
        buffer_model(*final(pic_buffer)) == rendered(
            program_model(instructions@),
            *render_options,
            *old(pic_buffer) is Some,
            *old(pri_buffer) is Some,
            *old(pic_vectors) is Some,
        ).canvas.pic,
        buffer_model(*final(pri_buffer)) == rendered(
            program_model(instructions@),
            *render_options,
            *old(pic_buffer) is Some,
            *old(pri_buffer) is Some,
            *old(pic_vectors) is Some,
        ).canvas.pri,
        paths_of(*final(pic_vectors)) == rendered(
            program_model(instructions@),
            *render_options,
            *old(pic_buffer) is Some,
            *old(pri_buffer) is Some,
            *old(pic_vectors) is Some,
        ).vectors,
        fault_of(r) == rendered(
            program_model(instructions@),
            *render_options,
            *old(pic_buffer) is Some,
            *old(pri_buffer) is Some,
            *old(pic_vectors) is Some,
        ).canvas.fault,
{
    let ghost program = program_model(instructions@);
    let ghost start = first_scene(*pic_buffer is Some, *pri_buffer is Some, *pic_vectors is Some);
    if let Some(buffer) = pic_buffer {
        buffer.reset(&get_color(PIC_BUFFER_BASE_COLOR));
    }
    if let Some(buffer) = pri_buffer {
        buffer.reset(&get_color(PRI_BUFFER_BASE_COLOR));
    }
    if let Some(vectors) = pic_vectors {
        vectors.clear();
    }
    let mut pic_color: Option<u8> = Some(PIC_BUFFER_BASE_COLOR);
    let mut pri_color: Option<u8> = Some(PRI_BUFFER_BASE_COLOR);
    let only_latest_instruction: bool = render_options.render_only_selected_instruction;
    let show_fill_outlines: bool = render_options.show_fill_outlines;
    let count: usize = instructions.len();
    let mut instruction_index: usize = 0;
    while instruction_index < count
        invariant
            instruction_index <= count,
            count == instructions@.len(),
            program == program_model(instructions@),
            only_latest_instruction == render_options.render_only_selected_instruction,
            show_fill_outlines == render_options.show_fill_outlines,
            start == first_scene(
                *old(pic_buffer) is Some,
                *old(pri_buffer) is Some,
                *old(pic_vectors) is Some,
            ),
            *pic_buffer is Some == *old(pic_buffer) is Some,
            *pri_buffer is Some == *old(pri_buffer) is Some,
            *pic_vectors is Some == *old(pic_vectors) is Some,
            (Scene {
                canvas: canvas_of(*pic_buffer, *pri_buffer, pic_color, pri_color, None),
                vectors: paths_of(*pic_vectors),
            }) == render_steps(start, program, *render_options, instruction_index as int),
        decreases count - instruction_index,
    {
        let render_instruction: bool = !only_latest_instruction || instruction_index == count - 1;
        match &instructions[instruction_index] {
            DerivedPicRenderInstruction::SetColor(_, buffer_type, color) => {
                match buffer_type {
                    PictureBufferType::Picture => {
                        pic_color = *color;
                    },
                    PictureBufferType::Priority => {
                        pri_color = *color;
                    },
                }
            },
            DerivedPicRenderInstruction::DrawLines(_, lines) => {
                match draw_pixel_lines(
                    lines,
                    pic_buffer,
                    pic_color,
                    pri_buffer,
                    pri_color,
                    instruction_index,
                ) {
                    Ok(()) => {},
                    Err(e) => {
                        proof {
                            lemma_render_steps_keep_fault(
                                start,
                                program,
                                *render_options,
                                instruction_index + 1,
                                count as int,
                            );
                        }
                        return Err(e);
                    },
                }
                if render_instruction {
                    if let Some(vectors) = pic_vectors {
                        if let Some(color) = pic_color {
                            vectors.add_path(VectorPath::from_point_list(lines, color));
                        }
                    }
                }
            },
            DerivedPicRenderInstruction::Fill(_, points) => {
                let edges = match pixel_fill(
                    points.as_slice(),
                    pic_buffer,
                    pic_color,
                    pri_buffer,
                    pri_color,
                    instruction_index,
                ) {
                    Ok(edges) => edges,
                    Err(e) => {
                        proof {
                            lemma_render_steps_keep_fault(
                                start,
                                program,
                                *render_options,
                                instruction_index + 1,
                                count as int,
                            );
                        }
                        return Err(e);
                    },
                };
                if render_instruction {
                    if let Some(vectors) = pic_vectors {
                        if let Some(color) = pic_color {
                            match outline_fill(
                                &edges.0,
                                instructions,
                                color,
                                show_fill_outlines,
                                vectors,
                            ) {
                                Ok(()) => {},
                                Err(e) => {
                                    proof {
                                        lemma_render_steps_keep_fault(
                                            start,
                                            program,
                                            *render_options,
                                            instruction_index + 1,
                                            count as int,
                                        );
                                    }
                                    return Err(e);
                                },
                            }
                        }
                    }
                }
            },
            DerivedPicRenderInstruction::Unimplemented(_) => {},
        }
        instruction_index += 1;
    }
    if only_latest_instruction && count > 0 {
        let latest_instruction_index: usize = count - 1;
        if let Some(buffer) = pic_buffer {
            buffer.isolate_instruction_pixels(
                latest_instruction_index,
                None,
                get_color(PIC_BUFFER_BASE_COLOR),
            );
        }
        if let Some(buffer) = pri_buffer {
            buffer.isolate_instruction_pixels(
                latest_instruction_index,
                None,
                get_color(PRI_BUFFER_BASE_COLOR),
            );
        }
    }
    Ok(())
}

/// The first instructions of `program` up to and counting the one at
/// `cutoff`; all of them if the program is shorter.
pub open spec fn upto(program: Seq<InstructionModel>, cutoff: usize) -> Seq<InstructionModel> {
    if cutoff < program.len() {
        program.take(cutoff + 1)
    } else {
        program
    }
}

/// Whether `r` is what rendering `program` up to instruction `cutoff`
/// gives: the picture buffer and the priority buffer of the replay, or
/// its fault.
pub open spec fn is_render_of(
    r: Result<(PixelBuffer, PixelBuffer), AgiError>,
    program: Seq<InstructionModel>,
    cutoff: usize,
) -> bool {
    let scene = rendered(
        upto(program, cutoff),
        RenderOptions { render_only_selected_instruction: false, show_fill_outlines: false },
        true,
        true,
        false,
    );
    match r {
        Ok(buffers) => scene.canvas.fault is None && scene.canvas.pic == Some(buffers.0@)
            && scene.canvas.pri == Some(buffers.1@),
        Err(e) => scene.canvas.fault == Some(e),
    }
}

/// Renders the instructions of `program` up to and counting the one at
/// `cutoff` onto a fresh picture buffer and a fresh priority buffer.
pub fn render(program: &[DerivedPicRenderInstruction], cutoff: usize) -> (r: Result<
    (PixelBuffer, PixelBuffer),
    AgiError,
>)
    ensures
        is_render_of(r, program_model(program@), cutoff),
{
    let shown: &[DerivedPicRenderInstruction] = if cutoff < program.len() {
        slice_subrange(program, 0, cutoff + 1)
    } else {
        program
    };
    assert(program_model(shown@) == upto(program_model(program@), cutoff));
    let options = RenderOptions { render_only_selected_instruction: false, show_fill_outlines: false };
    let mut pic_buffer: Option<PixelBuffer> = Some(PixelBuffer::new(get_color(PIC_BUFFER_BASE_COLOR)));
    let mut pri_buffer: Option<PixelBuffer> = Some(PixelBuffer::new(get_color(PRI_BUFFER_BASE_COLOR)));
    let mut pic_vectors: Option<ShapeBuffer> = None;
    match render_to_buffers(shown, &options, &mut pic_buffer, &mut pri_buffer, &mut pic_vectors) {
        Ok(()) => {},
        Err(e) => {
            return Err(e);
        },
    }
    Ok((pic_buffer.unwrap(), pri_buffer.unwrap()))
}

impl PicResource {
    /// Renders the picture up to and counting instruction `max_index`.
    pub fn render(&self, max_index: usize) -> (r: Result<(PixelBuffer, PixelBuffer), AgiError>)
        ensures
            is_render_of(r, self@, max_index),
    {
        render(self.get_instructions().as_slice(), max_index)
    }
}

} // verus!
