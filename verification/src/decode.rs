//! The fields of an instruction word.
//!
//! A word is sixteen bits, written here as four hexadecimal digits `GXYN`:
//! `G` selects the instruction group, `X` and `Y` name registers, `N` is a
//! four-bit operand, `NN` (the digits `YN`) an eight-bit operand and `NNN`
//! (the digits `XYN`) a twelve-bit address.

use vstd::prelude::*;

verus! {

/// The word whose high byte is `hi` and whose low byte is `lo`.
pub open spec fn word_of(hi: u8, lo: u8) -> u16 {
    (hi as int * 256 + lo as int) as u16
}

/// The group digit `G` of a word, from 0 to 15.
pub open spec fn group_of(word: u16) -> int {
    word as int / 4096
}

/// The register digit `X` of a word, from 0 to 15.
pub open spec fn x_of(word: u16) -> int {
    (word as int / 256) % 16
}

/// The register digit `Y` of a word, from 0 to 15.
pub open spec fn y_of(word: u16) -> int {
    (word as int / 16) % 16
}

/// The last digit `N` of a word, from 0 to 15.
pub open spec fn n_of(word: u16) -> int {
    word as int % 16
}

/// The low byte `NN` of a word.
pub open spec fn nn_of(word: u16) -> u8 {
    (word as int % 256) as u8
}

/// The low twelve bits `NNN` of a word.
pub open spec fn nnn_of(word: u16) -> u16 {
    (word as int % 4096) as u16
}

/// Joins two consecutive memory bytes, most significant first, into a word.
pub fn word(hi: u8, lo: u8) -> (w: u16)
    ensures
        w == word_of(hi, lo),
{
    assert((hi as u16) << 8 | (lo as u16) == hi as u16 * 256 + lo as u16) by (bit_vector);
    (hi as u16) << 8 | (lo as u16)
}

/// Extracts the group digit.
pub fn group(word: u16) -> (g: u8)
    ensures
        g == group_of(word),
        g < 16,
{
    assert((word & 0xF000) >> 12 == word / 4096 && word / 4096 < 16) by (bit_vector);
    ((word & 0xF000) >> 12) as u8
}

/// Extracts the register digit `X`.
pub fn register_x(word: u16) -> (x: usize)
    ensures
        x == x_of(word),
        x < 16,
{
    assert((word & 0x0F00) >> 8 == (word / 256) % 16) by (bit_vector);
    ((word & 0x0F00) >> 8) as usize
}

/// Extracts the register digit `Y`.
pub fn register_y(word: u16) -> (y: usize)
    ensures
        y == y_of(word),
        y < 16,
{
    assert((word & 0x00F0) >> 4 == (word / 16) % 16) by (bit_vector);
    ((word & 0x00F0) >> 4) as usize
}

/// Extracts the last digit.
pub fn nibble(word: u16) -> (n: u8)
    ensures
        n == n_of(word),
        n < 16,
{
    assert(word & 0x000F == word % 16) by (bit_vector);
    (word & 0x000F) as u8
}

/// Extracts the low byte.
pub fn byte(word: u16) -> (nn: u8)
    ensures
        nn == nn_of(word),
{
    assert(word & 0x00FF == word % 256) by (bit_vector);
    (word & 0x00FF) as u8
}

/// Extracts the twelve-bit address.
pub fn address(word: u16) -> (nnn: u16)
    ensures
        nnn == nnn_of(word),
        nnn < 4096,
{
    assert(word & 0x0FFF == word % 4096) by (bit_vector);
    word & 0x0FFF
}

} // verus!
