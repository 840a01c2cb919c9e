//! Decoding picture bytecode into drawing instructions.
//!
//! A byte whose high nibble is `0xF` is an opcode. The bytes that follow it,
//! up to the next opcode, are its arguments; how many there are depends on
//! the picture, not on the opcode.

use vstd::prelude::*;
use vstd::slice::slice_subrange;
use crate::common::AgiError;
use crate::common::PosU8;

verus! {

/// The two buffers that a picture is drawn to.
#[derive(Debug, Copy, Clone, PartialEq, Eq, Structural)]
pub enum PictureBufferType {
    Picture,
    Priority,
}

/// What an opcode byte asks for.
#[derive(Debug, Copy, Clone, PartialEq, Eq, Structural)]
pub enum PicRenderInstruction {
    SetPicColorAndEnablePicDraw,
    DisablePicDraw,
    SetPriColorAndEnablePriDraw,
    DisablePriDraw,
    DrawYCorner,
    DrawXCorner,
    AbsLine,
    RelLine,
    Fill,
    SetPenSizeAndStyle,
    PlotWithPen,
    EndInstruction,
    /// A byte that the opcode table does not hold; the byte is kept.
    Unknown(u8),
}

/// Which coordinate the first argument after the start point of a corner
/// line replaces.
#[derive(Debug, Copy, Clone, PartialEq, Eq, Structural)]
pub enum CornerLineStartDirection {
    StartOnX,
    StartOnY,
}

/// A decoded instruction, with its arguments turned into what it draws.
#[derive(Debug)]
pub enum DerivedPicRenderInstruction {
    /// Sets the colour drawn to one buffer; `None` switches drawing to it off.
    SetColor(PicRenderInstruction, PictureBufferType, Option<u8>),
    /// Draws a line from each point to the next one.
    DrawLines(PicRenderInstruction, Vec<PosU8>),
    /// Flood-fills from each point.
    Fill(PicRenderInstruction, Vec<PosU8>),
    /// Recorded, but draws nothing.
    Unimplemented(PicRenderInstruction),
}

/// Mathematical content of a [`DerivedPicRenderInstruction`].
pub ghost enum InstructionModel {
    SetColor(PicRenderInstruction, PictureBufferType, Option<u8>),
    DrawLines(PicRenderInstruction, Seq<PosU8>),
    Fill(PicRenderInstruction, Seq<PosU8>),
    Unimplemented(PicRenderInstruction),
}

impl View for DerivedPicRenderInstruction {
    type V = InstructionModel;

    open spec fn view(&self) -> InstructionModel {
        match self {
            DerivedPicRenderInstruction::SetColor(kind, buffer, color) => InstructionModel::SetColor(
                *kind,
                *buffer,
                *color,
            ),
            DerivedPicRenderInstruction::DrawLines(kind, points) => InstructionModel::DrawLines(
                *kind,
                points@,
            ),
            DerivedPicRenderInstruction::Fill(kind, points) => InstructionModel::Fill(
                *kind,
                points@,
            ),
            DerivedPicRenderInstruction::Unimplemented(kind) => InstructionModel::Unimplemented(
                *kind,
            ),
        }
    }
}

/// The content of each instruction of a program, in order.
pub open spec fn program_model(program: Seq<DerivedPicRenderInstruction>) -> Seq<
    InstructionModel,
> {
    Seq::new(program.len(), |i: int| program[i]@)
}

// ---------------------------------------------------------------------
// Opcodes and argument runs
// ---------------------------------------------------------------------

/// Whether `b` is an opcode: its high nibble is `0xF`.
pub open spec fn is_opcode(b: u8) -> bool {
    b >= 0xF0
}

/// Where the run of arguments that starts at `from` ends: at the next
/// opcode, or at the end of the data.
pub open spec fn arguments_end(data: Seq<u8>, from: int) -> int
    decreases data.len() - from,
{
    if from < 0 || from >= data.len() || is_opcode(data[from]) {
        from
    } else {
        arguments_end(data, from + 1)
    }
}

/// The run of arguments ends inside the data, holds no opcode, and stops
/// only at an opcode or at the end.
pub proof fn lemma_arguments_end(data: Seq<u8>, from: int)
    requires
        0 <= from <= data.len(),
    ensures
        from <= arguments_end(data, from) <= data.len(),
        forall|j: int| from <= j < arguments_end(data, from) ==> !is_opcode(#[trigger] data[j]),
        arguments_end(data, from) < data.len() ==> is_opcode(data[arguments_end(data, from)]),
    decreases data.len() - from,
{
    if from < data.len() && !is_opcode(data[from]) {
        lemma_arguments_end(data, from + 1);
    }
}

/// The kind of instruction that opcode byte `opcode` stands for. A byte
/// outside the table is kept as it is.
pub open spec fn opcode_kind(opcode: u8) -> PicRenderInstruction {
    if opcode == 0xF0 {
        PicRenderInstruction::SetPicColorAndEnablePicDraw
    } else if opcode == 0xF1 {
        PicRenderInstruction::DisablePicDraw
    } else if opcode == 0xF2 {
        PicRenderInstruction::SetPriColorAndEnablePriDraw
    } else if opcode == 0xF3 {
        PicRenderInstruction::DisablePriDraw
    } else if opcode == 0xF4 {
        PicRenderInstruction::DrawYCorner
    } else if opcode == 0xF5 {
        PicRenderInstruction::DrawXCorner
    } else if opcode == 0xF6 {
        PicRenderInstruction::AbsLine
    } else if opcode == 0xF7 {
        PicRenderInstruction::RelLine
    } else if opcode == 0xF8 {
        PicRenderInstruction::Fill
    } else if opcode == 0xF9 {
        PicRenderInstruction::SetPenSizeAndStyle
    } else if opcode == 0xFA {
        PicRenderInstruction::PlotWithPen
    } else if opcode == 0xFF {
        PicRenderInstruction::EndInstruction
    } else {
        PicRenderInstruction::Unknown(opcode)
    }
}

// ---------------------------------------------------------------------
// Point lists
// ---------------------------------------------------------------------

/// Arguments read as pairs of coordinates. An empty or odd-length run
/// gives no points.
pub open spec fn pair_points(args: Seq<u8>) -> Seq<PosU8> {
    if args.len() > 0 && args.len() % 2 == 0 {
        Seq::new((args.len() / 2) as nat, |i: int| PosU8 { x: args[2 * i], y: args[2 * i + 1] })
    } else {
        Seq::empty()
    }
}

/// Whether the `step`-th argument after the start point of a corner line
/// replaces the x coordinate. Steps count from 1 and the axes take turns.
pub open spec fn corner_step_on_x(start: CornerLineStartDirection, step: int) -> bool {
    (step % 2 == 1) == (start == CornerLineStartDirection::StartOnX)
}

/// Point `i` of a corner line: the start point for `i == 0`, and
/// otherwise the point before it with one coordinate replaced by the
/// next argument.
pub open spec fn corner_point(args: Seq<u8>, start: CornerLineStartDirection, i: int) -> PosU8
    decreases i,
{
    if i <= 0 {
        PosU8 { x: args[0], y: args[1] }
    } else {
        let before = corner_point(args, start, i - 1);
        if corner_step_on_x(start, i) {
            PosU8 { x: args[i + 1], y: before.y }
        } else {
            PosU8 { x: before.x, y: args[i + 1] }
        }
    }
}

/// The points of a corner line. Fewer than two arguments give no points.
pub open spec fn corner_points(args: Seq<u8>, start: CornerLineStartDirection) -> Seq<PosU8> {
    if args.len() >= 2 {
        Seq::new((args.len() - 1) as nat, |i: int| corner_point(args, start, i))
    } else {
        Seq::empty()
    }
}

/// Signed step along x that a relative-line byte encodes: bits 6 to 4 are
/// its size, bit 7 set makes it negative.
pub open spec fn rel_delta_x(b: u8) -> int {
    let size = (b as int / 16) % 8;
    if b >= 0x80 {
        -size
    } else {
        size
    }
}

/// Signed step along y that a relative-line byte encodes: bits 2 to 0 are
/// its size, bit 3 set makes it negative.
pub open spec fn rel_delta_y(b: u8) -> int {
    let size = b as int % 8;
    if (b as int / 8) % 2 == 1 {
        -size
    } else {
        size
    }
}

/// `v` wrapped into one byte.
pub open spec fn wrap_u8(v: int) -> u8 {
    (v % 256) as u8
}

/// The point that relative-line byte `b` leads to from `p`. Each
/// coordinate wraps as a byte does.
pub open spec fn rel_step(p: PosU8, b: u8) -> PosU8 {
    PosU8 { x: wrap_u8(p.x + rel_delta_x(b)), y: wrap_u8(p.y + rel_delta_y(b)) }
}

/// Point `i` of a relative line.
pub open spec fn rel_point(args: Seq<u8>, i: int) -> PosU8
    decreases i,
{
    if i <= 0 {
        PosU8 { x: args[0], y: args[1] }
    } else {
        rel_step(rel_point(args, i - 1), args[i + 1])
    }
}

/// The points of a relative line. Fewer than two arguments give no points.
pub open spec fn rel_points(args: Seq<u8>) -> Seq<PosU8> {
    if args.len() >= 2 {
        Seq::new((args.len() - 1) as nat, |i: int| rel_point(args, i))
    } else {
        Seq::empty()
    }
}

/// The byte that encodes the steps `dx` and `dy` of a relative line.
pub open spec fn rel_byte(dx: int, dy: int) -> u8
    recommends
        -7 <= dx <= 7,
        -7 <= dy <= 7,
{
    let x_bits = if dx < 0 {
        128 - 16 * dx
    } else {
        16 * dx
    };
    let y_bits = if dy < 0 {
        8 - dy
    } else {
        dy
    };
    (x_bits + y_bits) as u8
}

/// Decoding recovers the steps that a relative-line byte was made from.
pub proof fn lemma_rel_byte_round_trip(dx: int, dy: int)
    requires
        -7 <= dx <= 7,
        -7 <= dy <= 7,
    ensures
        rel_delta_x(rel_byte(dx, dy)) == dx,
        rel_delta_y(rel_byte(dx, dy)) == dy,
{
}

// ---------------------------------------------------------------------
// Instructions
// ---------------------------------------------------------------------

/// The instruction that `opcode` gives with the arguments `args`.
///
/// A colour opcode without its argument is kept as an instruction that
/// draws nothing. So are the pen opcodes, the end marker and every byte
/// outside the table, which is recorded with the instruction.
pub open spec fn decode_instruction(opcode: u8, args: Seq<u8>) -> InstructionModel {
    let kind = opcode_kind(opcode);
    match kind {
        PicRenderInstruction::SetPicColorAndEnablePicDraw => if args.len() > 0 {
            InstructionModel::SetColor(kind, PictureBufferType::Picture, Some(args[0]))
        } else {
            InstructionModel::Unimplemented(kind)
        },
        PicRenderInstruction::DisablePicDraw => InstructionModel::SetColor(
            kind,
            PictureBufferType::Picture,
            None,
        ),
        PicRenderInstruction::SetPriColorAndEnablePriDraw => if args.len() > 0 {
            InstructionModel::SetColor(kind, PictureBufferType::Priority, Some(args[0]))
        } else {
            InstructionModel::Unimplemented(kind)
        },
        PicRenderInstruction::DisablePriDraw => InstructionModel::SetColor(
            kind,
            PictureBufferType::Priority,
            None,
        ),
        PicRenderInstruction::DrawYCorner => InstructionModel::DrawLines(
            kind,
            corner_points(args, CornerLineStartDirection::StartOnY),
        ),
        PicRenderInstruction::DrawXCorner => InstructionModel::DrawLines(
            kind,
            corner_points(args, CornerLineStartDirection::StartOnX),
        ),
        PicRenderInstruction::AbsLine => InstructionModel::DrawLines(kind, pair_points(args)),
        PicRenderInstruction::RelLine => InstructionModel::DrawLines(kind, rel_points(args)),
        PicRenderInstruction::Fill => InstructionModel::Fill(kind, pair_points(args)),
        _ => InstructionModel::Unimplemented(kind),
    }
}

/// Whether the opcode table holds `opcode`.
pub open spec fn in_opcode_table(opcode: u8) -> bool {
    0xF0 <= opcode <= 0xFA || opcode == 0xFF
}

/// A byte that the opcode table does not hold is recorded with the
/// instruction, whatever arguments follow it: two such bytes never decode
/// to the same instruction.
pub proof fn lemma_unknown_opcode_is_recorded(opcode: u8, args: Seq<u8>)
    requires
        !in_opcode_table(opcode),
    ensures
        decode_instruction(opcode, args) == InstructionModel::Unimplemented(
            PicRenderInstruction::Unknown(opcode),
        ),
{
}

/// The instruction that starts at `offset`.
pub open spec fn decode_at(data: Seq<u8>, offset: int) -> InstructionModel {
    decode_instruction(data[offset], data.subrange(offset + 1, arguments_end(data, offset + 1)))
}

/// The instructions from `offset` to the end of the data.
pub open spec fn decode_program(data: Seq<u8>, offset: int) -> Seq<InstructionModel>
    decreases data.len() - offset,
{
    if 0 <= offset < data.len() {
        proof {
            lemma_arguments_end(data, offset + 1);
        }
        seq![decode_at(data, offset)] + decode_program(data, arguments_end(data, offset + 1))
    } else {
        Seq::empty()
    }
}

/// Whether `b` is an opcode byte.
pub fn is_opcode_byte(b: u8) -> (r: bool)
    ensures
        r == is_opcode(b),
{
    assert((b & 0xF0 == 0xF0) == (b >= 0xF0)) by (bit_vector);
    b & 0xF0 == 0xF0
}

/// The coordinate `size` steps from `v`, towards smaller values if
/// `negative`, wrapping as a byte does.
fn shifted(v: u8, size: u8, negative: bool) -> (r: u8)
    requires
        size <= 7,
    ensures
        !negative ==> r == wrap_u8(v + size),
        negative ==> r == wrap_u8(v - size),
{
    if negative {
        v.wrapping_sub(size)
    } else {
        v.wrapping_add(size)
    }
}

/// The point that relative-line byte `arg` leads to from `point`.
pub fn relative_step(point: PosU8, arg: u8) -> (next: PosU8)
    ensures
        next == rel_step(point, arg),
{
    let size_x: u8 = (arg & 0x70) >> 4;
    let size_y: u8 = arg & 0x07;
    let left: bool = arg & 0x80 != 0;
    let up: bool = arg & 0x08 != 0;
    assert((arg & 0x70) >> 4 == (arg / 16) % 8) by (bit_vector);
    assert(arg & 0x07 == arg % 8) by (bit_vector);
    assert((arg & 0x80 != 0) == (arg >= 0x80)) by (bit_vector);
    assert((arg & 0x08 != 0) == ((arg / 8) % 2 == 1)) by (bit_vector);
    let x: u8 = shifted(point.x, size_x, left);
    let y: u8 = shifted(point.y, size_y, up);
    PosU8 { x, y }
}

impl DerivedPicRenderInstruction {
    /// Decodes the instruction that starts at `offset` and says where the
    /// next one starts.
    pub fn create_from_vec(raw_data: &[u8], offset: usize) -> (r: (
        DerivedPicRenderInstruction,
        usize,
    ))
        requires
            offset < raw_data@.len(),
        ensures
            r.0@ == decode_at(raw_data@, offset as int),
            r.1 == arguments_end(raw_data@, offset + 1),
            offset < r.1 <= raw_data@.len(),
    {
        let instruction: u8 = raw_data[offset];
        let mut current_offset: usize = offset + 1;
        while current_offset < raw_data.len() && !is_opcode_byte(raw_data[current_offset])
            invariant
                offset < current_offset <= raw_data@.len(),
                arguments_end(raw_data@, current_offset as int) == arguments_end(
                    raw_data@,
                    offset + 1,
                ),
            decreases raw_data@.len() - current_offset,
        {
            current_offset += 1;
        }
        let arguments: &[u8] = slice_subrange(raw_data, offset + 1, current_offset);
        let kind = Self::kind_of(instruction);
        let derived_instruction = match kind {
            PicRenderInstruction::SetPicColorAndEnablePicDraw => if arguments.len() > 0 {
                Self::SetColor(kind, PictureBufferType::Picture, Some(arguments[0]))
            } else {
                Self::Unimplemented(kind)
            },
            PicRenderInstruction::DisablePicDraw => Self::SetColor(
                kind,
                PictureBufferType::Picture,
                None,
            ),
            PicRenderInstruction::SetPriColorAndEnablePriDraw => if arguments.len() > 0 {
                Self::SetColor(kind, PictureBufferType::Priority, Some(arguments[0]))
            } else {
                Self::Unimplemented(kind)
            },
            PicRenderInstruction::DisablePriDraw => Self::SetColor(
                kind,
                PictureBufferType::Priority,
                None,
            ),
            PicRenderInstruction::DrawYCorner => Self::DrawLines(
                kind,
                Self::generate_corner_lines(arguments, CornerLineStartDirection::StartOnY),
            ),
            PicRenderInstruction::DrawXCorner => Self::DrawLines(
                kind,
                Self::generate_corner_lines(arguments, CornerLineStartDirection::StartOnX),
            ),
            PicRenderInstruction::AbsLine => Self::DrawLines(
                kind,
                Self::generate_point_pairs(arguments),
            ),
            PicRenderInstruction::RelLine => Self::DrawLines(
                kind,
                Self::generate_rel_lines(arguments),
            ),
            PicRenderInstruction::Fill => Self::Fill(kind, Self::generate_point_pairs(arguments)),
            _ => Self::Unimplemented(kind),
        };
        (derived_instruction, current_offset)
    }

    /// The kind of instruction that an opcode byte stands for.
    pub fn kind_of(opcode: u8) -> (kind: PicRenderInstruction)
        ensures
            kind == opcode_kind(opcode),
    {
        match opcode {
            0xF0 => PicRenderInstruction::SetPicColorAndEnablePicDraw,
            0xF1 => PicRenderInstruction::DisablePicDraw,
            0xF2 => PicRenderInstruction::SetPriColorAndEnablePriDraw,
            0xF3 => PicRenderInstruction::DisablePriDraw,
            0xF4 => PicRenderInstruction::DrawYCorner,
            0xF5 => PicRenderInstruction::DrawXCorner,
            0xF6 => PicRenderInstruction::AbsLine,
            0xF7 => PicRenderInstruction::RelLine,
            0xF8 => PicRenderInstruction::Fill,
            0xF9 => PicRenderInstruction::SetPenSizeAndStyle,
            0xFA => PicRenderInstruction::PlotWithPen,
            0xFF => PicRenderInstruction::EndInstruction,
            _ => PicRenderInstruction::Unknown(opcode),
        }
    }

    /// The points of a corner line with the given arguments.
    pub fn generate_corner_lines(arguments: &[u8], start_dir: CornerLineStartDirection) -> (result:
        Vec<PosU8>)
        ensures
            result@ == corner_points(arguments@, start_dir),
    {
        let mut result: Vec<PosU8> = Vec::new();
        if arguments.len() >= 2 {
            result.push(PosU8::new(arguments[0], arguments[1]));
            let mut x: u8 = arguments[0];
            let mut y: u8 = arguments[1];
            let mut direction_is_x: bool = start_dir == CornerLineStartDirection::StartOnX;
            let mut i: usize = 2;
            while i < arguments.len()
                invariant
                    2 <= i <= arguments@.len(),
                    result@.len() == i - 1,
                    forall|j: int| 0 <= j < i - 1 ==> result@[j] == corner_point(arguments@, start_dir, j),
                    x == corner_point(arguments@, start_dir, i - 2).x,
                    y == corner_point(arguments@, start_dir, i - 2).y,
                    direction_is_x == corner_step_on_x(start_dir, i - 1),
                decreases arguments@.len() - i,
            {
                let arg: u8 = arguments[i];
                if direction_is_x {
                    x = arg;
                } else {
                    y = arg;
                }
                result.push(PosU8::new(x, y));
                direction_is_x = !direction_is_x;
                i += 1;
            }
        }
        result
    }

    /// The arguments read as pairs of coordinates.
    pub fn generate_point_pairs(arguments: &[u8]) -> (result: Vec<PosU8>)
        ensures
            result@ == pair_points(arguments@),
    {
        let mut result: Vec<PosU8> = Vec::new();
        if !arguments.is_empty() && arguments.len() % 2 == 0 {
            let mut i: usize = 0;
            while i < arguments.len()
                invariant
                    i <= arguments@.len(),
                    i % 2 == 0,
                    arguments@.len() % 2 == 0,
                    result@.len() == i / 2,
                    forall|j: int|
                        0 <= j < result@.len() ==> result@[j] == (PosU8 {
                            x: arguments@[2 * j],
                            y: arguments@[2 * j + 1],
                        }),
                decreases arguments@.len() - i,
            {
                result.push(PosU8::new(arguments[i], arguments[i + 1]));
                i += 2;
            }
        }
        result
    }

    /// The points of a relative line with the given arguments.
    pub fn generate_rel_lines(arguments: &[u8]) -> (result: Vec<PosU8>)
        ensures
            result@ == rel_points(arguments@),
    {
        let mut result: Vec<PosU8> = Vec::new();
        if arguments.len() >= 2 {
            let mut point = PosU8::new(arguments[0], arguments[1]);
            result.push(point);
            let mut i: usize = 2;
            while i < arguments.len()
                invariant
                    2 <= i <= arguments@.len(),
                    result@.len() == i - 1,
                    forall|j: int| 0 <= j < i - 1 ==> result@[j] == rel_point(arguments@, j),
                    point == rel_point(arguments@, i - 2),
                decreases arguments@.len() - i,
            {
                point = relative_step(point, arguments[i]);
                result.push(point);
                i += 1;
            }
        }
        result
    }
}

/// A decoded picture: its instructions in the order of the bytecode.
#[derive(Debug)]
pub struct PicResource {
    instructions: Vec<DerivedPicRenderInstruction>,
}

impl View for PicResource {
    type V = Seq<InstructionModel>;

    closed spec fn view(&self) -> Seq<InstructionModel> {
        program_model(self.instructions@)
    }
}

impl PicResource {
    /// Decodes a whole payload. Every payload decodes.
    pub fn new(raw_data: &Vec<u8>) -> (r: Result<Self, AgiError>)
        ensures
            r is Ok,
            r->Ok_0@ == decode_program(raw_data@, 0),
    {
        let mut offset: usize = 0;
        let mut instructions: Vec<DerivedPicRenderInstruction> = Vec::new();
        while offset < raw_data.len()
            invariant
                offset <= raw_data@.len(),
                program_model(instructions@) + decode_program(raw_data@, offset as int)
                    == decode_program(raw_data@, 0),
            decreases raw_data@.len() - offset,
        {
            let (instruction, next_offset) = DerivedPicRenderInstruction::create_from_vec(
                raw_data.as_slice(),
                offset,
            );
            instructions.push(instruction);
            offset = next_offset;
        }
        Ok(PicResource { instructions })
    }

    /// The instructions of the picture.
    pub fn get_instructions(&self) -> (instructions: &Vec<DerivedPicRenderInstruction>)
        ensures
            program_model(instructions@) == self@,
    {
        &self.instructions
    }
}

/// Name of a palette entry.
pub open spec fn color_name(agi_color: u8) -> Seq<char> {
    if agi_color == 0x00 {
        "black"@
    } else if agi_color == 0x01 {
        "blue"@
    } else if agi_color == 0x02 {
        "green"@
    } else if agi_color == 0x03 {
        "cyan"@
    } else if agi_color == 0x04 {
        "red"@
    } else if agi_color == 0x05 {
        "magenta"@
    } else if agi_color == 0x06 {
        "brown"@
    } else if agi_color == 0x07 {
        "light gray"@
    } else if agi_color == 0x08 {
        "dark gray"@
    } else if agi_color == 0x09 {
        "light blue"@
    } else if agi_color == 0x0A {
        "light green"@
    } else if agi_color == 0x0B {
        "light cyan"@
    } else if agi_color == 0x0C {
        "light red"@
    } else if agi_color == 0x0D {
        "light magenta"@
    } else if agi_color == 0x0E {
        "yellow"@
    } else if agi_color == 0x0F {
        "white"@
    } else {
        "INVALID"@
    }
}

/// Name of a palette entry, `"INVALID"` for a number above 15.
pub fn get_color_str(agi_color: u8) -> (name: &'static str)
    ensures
        name@ == color_name(agi_color),
{
    match agi_color {
        0x00 => "black",
        0x01 => "blue",
        0x02 => "green",
        0x03 => "cyan",
        0x04 => "red",
        0x05 => "magenta",
        0x06 => "brown",
        0x07 => "light gray",
        0x08 => "dark gray",
        0x09 => "light blue",
        0x0A => "light green",
        0x0B => "light cyan",
        0x0C => "light red",
        0x0D => "light magenta",
        0x0E => "yellow",
        0x0F => "white",
        _ => "INVALID",
    }
}

} // verus!
