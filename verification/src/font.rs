//! The built-in hexadecimal font.
use vstd::prelude::*;

verus! {

/// Address of the first glyph in memory.
pub const FONT_BASE: u16 = 0;

/// Number of bytes, one per pixel row, in each glyph.
pub const GLYPH_HEIGHT: u16 = 5;

/// Number of bytes in the whole font table.
pub const FONT_LEN: usize = 80;

/// The sixteen glyphs for the digits 0 to F, five rows each. The high nibble
/// of a row holds its four pixels.
pub const CHIP8_FONTSET: [u8; 80] = [
    0xF0, 0x90, 0x90, 0x90, 0xF0,
    0x20, 0x60, 0x20, 0x20, 0x70,
    0xF0, 0x10, 0xF0, 0x80, 0xF0,
    0xF0, 0x10, 0xF0, 0x10, 0xF0,
    0x90, 0x90, 0xF0, 0x10, 0x10,
    0xF0, 0x80, 0xF0, 0x10, 0xF0,
    0xF0, 0x80, 0xF0, 0x90, 0xF0,
    0xF0, 0x10, 0x20, 0x40, 0x40,
    0xF0, 0x90, 0xF0, 0x90, 0xF0,
    0xF0, 0x90, 0xF0, 0x10, 0xF0,
    0xF0, 0x90, 0xF0, 0x90, 0x90,
    0xE0, 0x90, 0xE0, 0x90, 0xE0,
    0xF0, 0x80, 0x80, 0x80, 0xF0,
    0xE0, 0x90, 0x90, 0x90, 0xE0,
    0xF0, 0x80, 0xF0, 0x80, 0xF0,
    0xF0, 0x80, 0xF0, 0x80, 0x80,
];

/// The address of the glyph for `digit`: the font base plus five bytes for
/// each digit before it.
pub open spec fn glyph_address(digit: u8) -> int {
    FONT_BASE + digit * GLYPH_HEIGHT
}

/// Computes [`glyph_address`]. Any byte is accepted; the sixteen digits
/// 0 to F are the ones that have a glyph.
pub fn glyph_address_of(digit: u8) -> (addr: u16)
    ensures
        addr == glyph_address(digit),
        digit <= 0xF ==> addr + GLYPH_HEIGHT <= FONT_LEN,
{
    FONT_BASE + (digit as u16) * GLYPH_HEIGHT
}

} // verus!
