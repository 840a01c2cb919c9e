//! Constants and small types shared by the whole crate.

use vstd::prelude::*;

verus! {

/// Width of the drawing surface in pixels.
pub const VIEWPORT_WIDTH: usize = 160;

/// Height of the drawing surface in pixels.
pub const VIEWPORT_HEIGHT: usize = 168;

/// Number of pixels on the drawing surface.
pub const VIEWPORT_PIXELS: usize = VIEWPORT_WIDTH * VIEWPORT_HEIGHT;

/// Colour the picture buffer starts with (white).
pub const PIC_BUFFER_BASE_COLOR: u8 = 0xF;

/// Colour the priority buffer starts with (red).
pub const PRI_BUFFER_BASE_COLOR: u8 = 0x4;

/// Why a directory or a volume could not be read.
#[derive(Debug, Copy, Clone, PartialEq, Eq, Structural)]
pub enum ParseFault {
    /// The directory has no complete three-byte entry at `index`.
    DirectoryTooShort { index: usize, len: usize },
    /// The entry names a volume that was not supplied.
    InvalidVolume { volume: u8 },
    /// The volume ends before byte `needed` of the record.
    VolumeTooShort { volume: u8, needed: usize },
    /// The record does not start with the signature; `found` is what stands there.
    BadSignature { found: u16 },
}

/// Why a picture could not be drawn.
#[derive(Debug, Copy, Clone, PartialEq, Eq, Structural)]
pub enum RenderFault {
    /// A pixel outside the drawing surface was asked for.
    PixelOutOfRange { x: usize, y: usize },
    /// A fill edge names an instruction the program does not have.
    InstructionOutOfRange { index: usize },
    /// A fill edge names an instruction that draws no lines.
    NotALine { index: usize },
    /// A fill edge names a segment the line instruction does not have.
    SubIndexOutOfBounds { index: usize, sub_index: usize },
}

/// The two kinds of failure: corrupt input data and drawing off the surface.
#[derive(Debug, Copy, Clone, PartialEq, Eq, Structural)]
pub enum AgiError {
    Parse(ParseFault),
    Render(RenderFault),
}

impl AgiError {
    /// Short name of the kind of failure.
    pub fn describe(&self) -> (text: &'static str)
        ensures
            self is Parse ==> text@ == "Parse error"@,
            self is Render ==> text@ == "Render error"@,
    {
        match self {
            AgiError::Parse(_) => "Parse error",
            AgiError::Render(_) => "Render error",
        }
    }
}

/// A point with byte coordinates, as the bytecode stores it.
#[derive(Debug, Copy, Clone, PartialEq, Eq, Structural)]
pub struct PosU8 {
    pub x: u8,
    pub y: u8,
}

impl PosU8 {
    pub fn new(x: u8, y: u8) -> (p: Self)
        ensures
            p == (PosU8 { x, y }),
    {
        Self { x, y }
    }
}

} // verus!
