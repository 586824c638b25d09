use vstd::prelude::*;

verus! {

/// Colour value meaning "the terminal's default colour".
///
/// A colour is one of: an index 0..=255 into the xterm palette, this default marker, or a
/// direct 24-bit colour `rgb_color(r, g, b)`, which lies at or above `RGB_COLOR_BASE`.
pub const DEFAULT_COLOR: u32 = 256;

/// Direct (24-bit) colours are stored as this base plus `0xRRGGBB`.
pub const RGB_COLOR_BASE: u32 = 0x0100_0000;

/// The colour value that stands for the direct colour with channels `r`, `g`, `b`.
pub open spec fn rgb_color(r: u8, g: u8, b: u8) -> u32 {
    (RGB_COLOR_BASE + r * 65536 + g * 256 + b) as u32
}

pub const FLAG_BOLD: u8 = 0x01;
pub const FLAG_DIM: u8 = 0x02;
pub const FLAG_ITALIC: u8 = 0x04;
pub const FLAG_UNDERLINE: u8 = 0x08;
pub const FLAG_BLINK: u8 = 0x10;
pub const FLAG_REVERSE: u8 = 0x20;
pub const FLAG_INVISIBLE: u8 = 0x40;
pub const FLAG_STRIKETHROUGH: u8 = 0x80;

/// One character cell of the screen: a code point, its colours and its attribute flags.
#[derive(Clone, Copy, Debug, PartialEq, Eq, Structural)]
pub struct Cell {
    pub char: u32,
    pub fg: u32,
    pub bg: u32,
    pub flags: u8,
    pub _pad1: u8,
    pub _pad2: u8,
    pub _pad3: u8,
}

/// A space with default foreground, background `bg` and no attributes.
pub open spec fn blank_cell_with_bg(bg: u32) -> Cell {
    Cell { char: 32, fg: DEFAULT_COLOR, bg, flags: 0, _pad1: 0, _pad2: 0, _pad3: 0 }
}

impl Cell {
    /// Size in bytes of a cell in the packed layout handed to renderers.
    pub const BYTE_SIZE: usize = 16;

    /// The blank cell: a space in the default colours, no attributes.
    pub fn blank() -> (c: Cell)
        ensures
            c == blank_cell_with_bg(DEFAULT_COLOR),
    {
        Cell { char: 32, fg: DEFAULT_COLOR, bg: DEFAULT_COLOR, flags: 0, _pad1: 0, _pad2: 0, _pad3: 0 }
    }

    /// A blank cell whose background is `bg`.
    pub fn blank_with_bg(bg: u32) -> (c: Cell)
        ensures
            c == blank_cell_with_bg(bg),
    {
        Cell { char: 32, fg: DEFAULT_COLOR, bg, flags: 0, _pad1: 0, _pad2: 0, _pad3: 0 }
    }
}

} // verus!
