//! The terminal palette: the colours that a terminal user interface names,
//! and the 8-bit RGB triple that each of them stands for.
use vstd::prelude::*;

verus! {

/// A terminal colour: the default colour, one of the sixteen named colours,
/// a direct RGB triple, or an entry of the 256-colour indexed palette.
#[derive(Clone, Copy, Debug, PartialEq, Eq, Structural)]
pub enum TerminalColour {
    Reset,
    Black,
    Red,
    Green,
    Yellow,
    Blue,
    Magenta,
    Cyan,
    Gray,
    DarkGray,
    LightRed,
    LightGreen,
    LightYellow,
    LightBlue,
    LightMagenta,
    LightCyan,
    White,
    Rgb(u8, u8, u8),
    Indexed(u8),
}

/// One channel of the low sixteen palette entries: `on` where bit `mask` of
/// `index` is set, `off` otherwise.
pub open spec fn bit_level(index: u8, mask: u8, on: u8, off: u8) -> u8 {
    if index & mask != 0 {
        on
    } else {
        off
    }
}

/// The RGB triple of entry `index` of the indexed palette. Entries 0 to 6
/// take 255 or 0 per channel from bits 2, 1 and 0 (red, green, blue); entry
/// 7 is light grey; entries 8 to 15 take 255 or 128 from the same bits;
/// entries 16 to 231 form a 6x6x6 cube in steps of 51; entries 232 to 255 are
/// a grey ramp from 8 in steps of 10.
pub open spec fn indexed_rgb_spec(index: u8) -> (u8, u8, u8) {
    if index <= 6 {
        (bit_level(index, 4, 255, 0), bit_level(index, 2, 255, 0), bit_level(index, 1, 255, 0))
    } else if index == 7 {
        (169, 169, 169)
    } else if index <= 15 {
        (bit_level(index, 4, 255, 128), bit_level(index, 2, 255, 128), bit_level(index, 1, 255, 128))
    } else if index < 232 {
        let i = index - 16;
        ((i / 36 * 51) as u8, (i % 36 / 6 * 51) as u8, (i % 6 * 51) as u8)
    } else {
        let grey = (8 + (index - 232) * 10) as u8;
        (grey, grey, grey)
    }
}

/// The RGB triple that a terminal colour stands for; the default colour is
/// black.
pub open spec fn terminal_rgb_spec(c: TerminalColour) -> (u8, u8, u8) {
    match c {
        TerminalColour::Reset => (0, 0, 0),
        TerminalColour::Black => (0, 0, 0),
        TerminalColour::Red => (255, 0, 0),
        TerminalColour::Green => (0, 255, 0),
        TerminalColour::Yellow => (255, 255, 0),
        TerminalColour::Blue => (0, 0, 255),
        TerminalColour::Magenta => (255, 0, 255),
        TerminalColour::Cyan => (0, 255, 255),
        TerminalColour::Gray => (169, 169, 169),
        TerminalColour::DarkGray => (128, 128, 128),
        TerminalColour::LightRed => (255, 128, 128),
        TerminalColour::LightGreen => (128, 255, 128),
        TerminalColour::LightYellow => (255, 255, 128),
        TerminalColour::LightBlue => (128, 128, 255),
        TerminalColour::LightMagenta => (255, 128, 255),
        TerminalColour::LightCyan => (128, 255, 255),
        TerminalColour::White => (255, 255, 255),
        TerminalColour::Rgb(r, g, b) => (r, g, b),
        TerminalColour::Indexed(index) => indexed_rgb_spec(index),
    }
}

fn bit_level_of(index: u8, mask: u8, on: u8, off: u8) -> (r: u8)
    ensures
        r == bit_level(index, mask, on, off),
{
    if index & mask != 0 {
        on
    } else {
        off
    }
}

/// The RGB triple of entry `index` of the 256-colour indexed palette.
pub fn indexed_rgb(index: u8) -> (r: (u8, u8, u8))
    ensures
        r == indexed_rgb_spec(index),
{
    if index <= 6 {
        (bit_level_of(index, 4, 255, 0), bit_level_of(index, 2, 255, 0), bit_level_of(index, 1, 255, 0))
    } else if index == 7 {
        (169, 169, 169)
    } else if index <= 15 {
        (
            bit_level_of(index, 4, 255, 128),
            bit_level_of(index, 2, 255, 128),
            bit_level_of(index, 1, 255, 128),
        )
    } else if index < 232 {
        let i = index - 16;
        (i / 36 * 51, i % 36 / 6 * 51, i % 6 * 51)
    } else {
        let grey = 8 + (index - 232) * 10;
        (grey, grey, grey)
    }
}

/// The RGB triple that a terminal colour stands for.
pub fn terminal_rgb(c: TerminalColour) -> (r: (u8, u8, u8))
    ensures
        r == terminal_rgb_spec(c),
{
    match c {
        TerminalColour::Reset => (0, 0, 0),
        TerminalColour::Black => (0, 0, 0),
        TerminalColour::Red => (255, 0, 0),
        TerminalColour::Green => (0, 255, 0),
        TerminalColour::Yellow => (255, 255, 0),
        TerminalColour::Blue => (0, 0, 255),
        TerminalColour::Magenta => (255, 0, 255),
        TerminalColour::Cyan => (0, 255, 255),
        TerminalColour::Gray => (169, 169, 169),
        TerminalColour::DarkGray => (128, 128, 128),
        TerminalColour::LightRed => (255, 128, 128),
        TerminalColour::LightGreen => (128, 255, 128),
        TerminalColour::LightYellow => (255, 255, 128),
        TerminalColour::LightBlue => (128, 128, 255),
        TerminalColour::LightMagenta => (255, 128, 255),
        TerminalColour::LightCyan => (128, 255, 255),
        TerminalColour::White => (255, 255, 255),
        TerminalColour::Rgb(r, g, b) => (r, g, b),
        TerminalColour::Indexed(index) => indexed_rgb(index),
    }
}

} // verus!
