//! The picture as paths: the lines as they were given, and the outlines
//! of fills, for display at any scale.

use vstd::prelude::*;
use vstd::slice::slice_to_vec;
use crate::common::AgiError;
use crate::common::PosU8;
use crate::common::RenderFault;
use crate::fill::FillEdge;
use crate::palette::get_color;
use crate::palette::palette;
use crate::palette::Rgb;
use crate::pic::program_model;
use crate::pic::DerivedPicRenderInstruction;
use crate::pic::InstructionModel;

verus! {

/// A path through points, in one colour.
#[derive(Debug)]
pub struct VectorPath {
    pub points: Vec<PosU8>,
    pub color: Rgb,
}

/// Mathematical content of a [`VectorPath`].
pub ghost struct PathModel {
    pub points: Seq<PosU8>,
    pub color: Rgb,
}

impl View for VectorPath {
    type V = PathModel;

    open spec fn view(&self) -> PathModel {
        PathModel { points: self.points@, color: self.color }
    }
}

impl VectorPath {
    /// The path through `points` in palette entry `color`.
    pub fn from_point_list(points: &Vec<PosU8>, color: u8) -> (path: VectorPath)
        ensures
            path@ == (PathModel { points: points@, color: palette(color) }),
    {
        VectorPath { points: slice_to_vec(points.as_slice()), color: get_color(color) }
    }

    /// The path from the first to the second of `points` in palette entry
    /// `color`.
    pub fn from_line(points: [PosU8; 2], color: u8) -> (path: VectorPath)
        ensures
            path@ == (PathModel { points: seq![points@[0], points@[1]], color: palette(color) }),
    {
        let mut ends: Vec<PosU8> = Vec::new();
        ends.push(points[0]);
        ends.push(points[1]);
        assert(ends@ == seq![points@[0], points@[1]]);
        VectorPath { points: ends, color: get_color(color) }
    }
}

/// A filled shape as triangles over a list of corners.
#[derive(Debug)]
pub struct VectorFill {
    pub vertices: Vec<PosU8>,
    pub triangles: Vec<usize>,
}

/// The last column of the surface.
pub const MAX_X: u8 = 159;

/// The last row of the surface.
pub const MAX_Y: u8 = 167;

/// The two ends of the line that a border edge stands for. The borders
/// run clockwise from the top left corner.
pub open spec fn border_line(edge: FillEdge) -> (PosU8, PosU8) {
    match edge {
        FillEdge::TopBorder => (PosU8 { x: 0, y: 0 }, PosU8 { x: MAX_X, y: 0 }),
        FillEdge::RightBorder => (PosU8 { x: MAX_X, y: 0 }, PosU8 { x: MAX_X, y: MAX_Y }),
        FillEdge::BottomBorder => (PosU8 { x: MAX_X, y: MAX_Y }, PosU8 { x: 0, y: MAX_Y }),
        _ => (PosU8 { x: 0, y: MAX_Y }, PosU8 { x: 0, y: 0 }),
    }
}

/// The two ends of the line that an edge stands for.
///
/// A line edge names an instruction and one of its segments. It has no
/// line if the program has no such instruction, if the instruction draws
/// no lines, or if it has no such segment. A line of a single point has
/// one segment, from the point to itself.
pub open spec fn edge_line(edge: FillEdge, program: Seq<InstructionModel>) -> Result<
    (PosU8, PosU8),
    AgiError,
> {
    match edge {
        FillEdge::Line(inst) => {
            if inst.base_index >= program.len() {
                Err(AgiError::Render(RenderFault::InstructionOutOfRange { index: inst.base_index }))
            } else {
                match program[inst.base_index as int] {
                    InstructionModel::DrawLines(_, points) => {
                        if points.len() == 1 && inst.sub_index == 0 {
                            Ok((points[0], points[0]))
                        } else if inst.sub_index + 1 < points.len() {
                            Ok((points[inst.sub_index as int], points[inst.sub_index + 1]))
                        } else {
                            Err(
                                AgiError::Render(
                                    RenderFault::SubIndexOutOfBounds {
                                        index: inst.base_index,
                                        sub_index: inst.sub_index,
                                    },
                                ),
                            )
                        }
                    },
                    _ => Err(AgiError::Render(RenderFault::NotALine { index: inst.base_index })),
                }
            }
        },
        _ => Ok(border_line(edge)),
    }
}

/// The two ends of a resolved line, or the fault.
pub open spec fn line_model(r: Result<[PosU8; 2], AgiError>) -> Result<(PosU8, PosU8), AgiError> {
    match r {
        Ok(line) => Ok((line@[0], line@[1])),
        Err(e) => Err(e),
    }
}

impl FillEdge {
    /// The two ends of the line that this edge stands for in the program
    /// `instructions`.
    pub fn to_line(&self, instructions: &[DerivedPicRenderInstruction]) -> (r: Result<
        [PosU8; 2],
        AgiError,
    >)
        ensures
            line_model(r) == edge_line(*self, program_model(instructions@)),
    {
        match self {
            FillEdge::Line(inst) => {
                let bi: usize = inst.base_index;
                if bi < instructions.len() {
                    match &instructions[bi] {
                        DerivedPicRenderInstruction::DrawLines(_, points) => {
                            let si: usize = inst.sub_index;
                            if points.len() == 1 && si == 0 {
                                Ok([points[0], points[0]])
                            } else if si < points.len() && si + 1 < points.len() {
                                Ok([points[si], points[si + 1]])
                            } else {
                                Err(
                                    AgiError::Render(
                                        RenderFault::SubIndexOutOfBounds { index: bi, sub_index: si },
                                    ),
                                )
                            }
                        },
                        _ => Err(AgiError::Render(RenderFault::NotALine { index: bi })),
                    }
                } else {
                    Err(AgiError::Render(RenderFault::InstructionOutOfRange { index: bi }))
                }
            },
            FillEdge::TopBorder => Ok([PosU8 { x: 0, y: 0 }, PosU8 { x: MAX_X, y: 0 }]),
            FillEdge::RightBorder => Ok([PosU8 { x: MAX_X, y: 0 }, PosU8 { x: MAX_X, y: MAX_Y }]),
            FillEdge::BottomBorder => Ok([PosU8 { x: MAX_X, y: MAX_Y }, PosU8 { x: 0, y: MAX_Y }]),
            FillEdge::LeftBorder => Ok([PosU8 { x: 0, y: MAX_Y }, PosU8 { x: 0, y: 0 }]),
        }
    }
}

/// The paths of a picture, in the order in which they were drawn.
#[derive(Debug)]
pub struct ShapeBuffer {
    paths: Vec<VectorPath>,
    _fills: Vec<VectorFill>,
}

/// The content of each path, in order.
pub open spec fn path_models(paths: Seq<VectorPath>) -> Seq<PathModel> {
    Seq::new(paths.len(), |i: int| paths[i]@)
}

impl View for ShapeBuffer {
    type V = Seq<PathModel>;

    closed spec fn view(&self) -> Seq<PathModel> {
        path_models(self.paths@)
    }
}

impl ShapeBuffer {
    /// A buffer without paths.
    pub fn new() -> (buffer: Self)
        ensures
            buffer@ == Seq::<PathModel>::empty(),
    {
        let buffer = Self { paths: Vec::new(), _fills: Vec::new() };
        buffer
    }

    /// Removes every path.
    pub fn clear(&mut self)
        ensures
            final(self)@ == Seq::<PathModel>::empty(),
    {
        self.paths.clear();
        self._fills.clear();
    }

    /// Adds `path` after the paths that are there.
    pub fn add_path(&mut self, path: VectorPath)
        ensures
            final(self)@ == old(self)@.push(path@),
    {
        self.paths.push(path);
    }

    /// The paths in the order in which they were added.
    pub fn get_paths(&self) -> (paths: &Vec<VectorPath>)
        ensures
            path_models(paths@) == self@,
    {
        &self.paths
    }
}

} // verus!
