use vstd::prelude::*;

verus! {

/// Address at which programs are loaded and execution starts.
pub const START_ADDRESS: u16 = 0x200;

/// Address of the first byte of the built-in font.
pub const FONTSET_START_ADDRESS: u16 = 0x50;

/// Number of bytes in the built-in font: sixteen glyphs of five rows each.
pub const FONTSET_SIZE: u16 = 80;

/// The glyphs for the hexadecimal digits 0 to F, five bytes per glyph, one
/// byte per row, the leftmost pixel in the most significant bit.
pub const FONT_DATA: [u8; 80] = [
    0xF0, 0x90, 0x90, 0x90, 0xF0,
    0x20, 0x60, 0x20, 0x20, 0x70,
    0xF0, 0x10, 0xF0, 0x80, 0xF0,
    0xF0, 0x10, 0xF0, 0x10, 0xF0,
    0x90, 0x90, 0xF0, 0x10, 0x10,
    0xF0, 0x80, 0xF0, 0x10, 0xF0,
    0xF0, 0x80, 0xF0, 0x90, 0xF0,
    0xF0, 0x10, 0x20, 0x40, 0x40,
    0xF0, 0x90, 0xF0, 0x90, 0xF0,
    0xF0, 0x90, 0xF0, 0x10, 0xF0,
    0xF0, 0x90, 0xF0, 0x90, 0x90,
    0xE0, 0x90, 0xE0, 0x90, 0xE0,
    0xF0, 0x80, 0x80, 0x80, 0xF0,
    0xE0, 0x90, 0x90, 0x90, 0xE0,
    0xF0, 0x80, 0xF0, 0x80, 0xF0,
    0xF0, 0x80, 0xF0, 0x80, 0x80,
];

} // verus!
