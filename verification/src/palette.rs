//! The sixteen colours of the EGA palette.

use vstd::prelude::*;

verus! {

/// A colour as red, green and blue.
#[derive(Debug, Copy, Clone, PartialEq, Eq, Hash, Structural)]
pub struct Rgb {
    pub r: u8,
    pub g: u8,
    pub b: u8,
}

/// The colour that stands for a palette number above 15.
pub open spec fn invalid_color() -> Rgb {
    Rgb { r: 0xFF, g: 0x00, b: 0xFF }
}

/// The colour of palette entry `agi_color`.
pub open spec fn palette(agi_color: u8) -> Rgb {
    if agi_color == 0x00 {
        Rgb { r: 0x00, g: 0x00, b: 0x00 }
    } else if agi_color == 0x01 {
        Rgb { r: 0x00, g: 0x00, b: 0xAA }
    } else if agi_color == 0x02 {
        Rgb { r: 0x00, g: 0xAA, b: 0x00 }
    } else if agi_color == 0x03 {
        Rgb { r: 0x00, g: 0xAA, b: 0xAA }
    } else if agi_color == 0x04 {
        Rgb { r: 0xAA, g: 0x00, b: 0x00 }
    } else if agi_color == 0x05 {
        Rgb { r: 0xAA, g: 0x00, b: 0xAA }
    } else if agi_color == 0x06 {
        Rgb { r: 0xAA, g: 0x55, b: 0x00 }
    } else if agi_color == 0x07 {
        Rgb { r: 0xAA, g: 0xAA, b: 0xAA }
    } else if agi_color == 0x08 {
        Rgb { r: 0x55, g: 0x55, b: 0x55 }
    } else if agi_color == 0x09 {
        Rgb { r: 0x55, g: 0x55, b: 0xFF }
    } else if agi_color == 0x0A {
        Rgb { r: 0x55, g: 0xFF, b: 0x55 }
    } else if agi_color == 0x0B {
        Rgb { r: 0x55, g: 0xFF, b: 0xFF }
    } else if agi_color == 0x0C {
        Rgb { r: 0xFF, g: 0x55, b: 0x55 }
    } else if agi_color == 0x0D {
        Rgb { r: 0xFF, g: 0x55, b: 0xFF }
    } else if agi_color == 0x0E {
        Rgb { r: 0xFF, g: 0xFF, b: 0x55 }
    } else if agi_color == 0x0F {
        Rgb { r: 0xFF, g: 0xFF, b: 0xFF }
    } else {
        invalid_color()
    }
}

/// Two palette numbers of which one is at most 15 have the same colour
/// only if they are the same number.
pub proof fn lemma_palette_distinct(a: u8, b: u8)
    requires
        a != b,
        a <= 0x0F || b <= 0x0F,
    ensures
        palette(a) != palette(b),
{
}

/// The colour of palette entry `agi_color`; one fixed colour for every
/// number above 15.
pub fn get_color(agi_color: u8) -> (color: Rgb)
    ensures
        color == palette(agi_color),
{
    match agi_color {
        0x00 => Rgb { r: 0x00, g: 0x00, b: 0x00 },
        0x01 => Rgb { r: 0x00, g: 0x00, b: 0xAA },
        0x02 => Rgb { r: 0x00, g: 0xAA, b: 0x00 },
        0x03 => Rgb { r: 0x00, g: 0xAA, b: 0xAA },
        0x04 => Rgb { r: 0xAA, g: 0x00, b: 0x00 },
        0x05 => Rgb { r: 0xAA, g: 0x00, b: 0xAA },
        0x06 => Rgb { r: 0xAA, g: 0x55, b: 0x00 },
        0x07 => Rgb { r: 0xAA, g: 0xAA, b: 0xAA },
        0x08 => Rgb { r: 0x55, g: 0x55, b: 0x55 },
        0x09 => Rgb { r: 0x55, g: 0x55, b: 0xFF },
        0x0A => Rgb { r: 0x55, g: 0xFF, b: 0x55 },
        0x0B => Rgb { r: 0x55, g: 0xFF, b: 0xFF },
        0x0C => Rgb { r: 0xFF, g: 0x55, b: 0x55 },
        0x0D => Rgb { r: 0xFF, g: 0x55, b: 0xFF },
        0x0E => Rgb { r: 0xFF, g: 0xFF, b: 0x55 },
        0x0F => Rgb { r: 0xFF, g: 0xFF, b: 0xFF },
        _ => Rgb { r: 0xFF, g: 0x00, b: 0xFF },
    }
}

} // verus!
