//! Panel colors and how they are encoded in the two framebuffer planes.
//!
//! The black/white plane (RAM 1) holds 1 for white and 0 for black; the red
//! plane (RAM 2) holds 1 where red shows, and red overrides black/white.
use vstd::prelude::*;
use crate::protocol::Color;

verus! {

/// A color of the tri-color panel.
#[derive(Debug, Clone, Copy, PartialEq, Eq, Structural)]
pub enum TriColor {
    White,
    Black,
    Red,
}

/// A color of the monochrome panel: `On` is ink (black), `Off` is paper (white).
#[derive(Debug, Clone, Copy, PartialEq, Eq, Structural)]
pub enum BinaryColor {
    Off,
    On,
}

/// The panel color of a protocol color.
pub open spec fn tri_of(c: Color) -> TriColor {
    match c {
        Color::White => TriColor::White,
        Color::Black => TriColor::Black,
        Color::Red => TriColor::Red,
    }
}

/// The panel color of a protocol color.
pub fn tri_from(c: Color) -> (t: TriColor)
    ensures
        t == tri_of(c),
{
    match c {
        Color::White => TriColor::White,
        Color::Black => TriColor::Black,
        Color::Red => TriColor::Red,
    }
}

/// The (black/white plane, red plane) bits of one pixel.
pub open spec fn pixel_bits(color: TriColor) -> (bool, bool) {
    match color {
        TriColor::White => (true, false),
        TriColor::Black => (false, false),
        TriColor::Red => (true, true),
    }
}

/// The (black/white plane, red plane) bytes of eight pixels of one color.
pub open spec fn fill_bytes(color: TriColor) -> (u8, u8) {
    match color {
        TriColor::White => (0xFF, 0x00),
        TriColor::Black => (0x00, 0x00),
        TriColor::Red => (0xFF, 0xFF),
    }
}

/// Bit `k` (0 = least significant) of `b`.
pub open spec fn bit_of(b: u8, k: u8) -> bool {
    (b >> k) & 1 == 1
}

/// The plane bytes of a whole-color fill.
pub fn encode_fill(color: TriColor) -> (f: (u8, u8))
    ensures
        f == fill_bytes(color),
{
    match color {
        TriColor::White => (0xFF, 0x00),
        TriColor::Black => (0x00, 0x00),
        TriColor::Red => (0xFF, 0xFF),
    }
}

/// The plane bits of one pixel.
pub fn encode_pixel(color: TriColor) -> (p: (bool, bool))
    ensures
        p == pixel_bits(color),
{
    match color {
        TriColor::White => (true, false),
        TriColor::Black => (false, false),
        TriColor::Red => (true, true),
    }
}

/// Filling with a color sets every pixel's bits to that color's pixel bits,
/// in both planes.
pub proof fn lemma_fill_matches_pixel(color: TriColor, k: u8)
    requires
        k < 8,
    ensures
        bit_of(fill_bytes(color).0, k) == pixel_bits(color).0,
        bit_of(fill_bytes(color).1, k) == pixel_bits(color).1,
{
    assert(k < 8 ==> (0xFFu8 >> k) & 1 == 1) by (bit_vector);
    assert((0x00u8 >> k) & 1 == 0) by (bit_vector);
}

/// The monochrome plane byte of eight pixels of one color.
pub open spec fn mono_fill_byte(color: BinaryColor) -> u8 {
    match color {
        BinaryColor::Off => 0xFF,
        BinaryColor::On => 0x00,
    }
}

/// The monochrome plane bit of one pixel: set for paper, clear for ink.
pub open spec fn mono_pixel_bit(color: BinaryColor) -> bool {
    color is Off
}

pub fn encode_mono_fill(color: BinaryColor) -> (b: u8)
    ensures
        b == mono_fill_byte(color),
{
    match color {
        BinaryColor::Off => 0xFF,
        BinaryColor::On => 0x00,
    }
}

/// Filling with a monochrome color sets every pixel's bit to that color's bit.
pub proof fn lemma_mono_fill_matches_pixel(color: BinaryColor, k: u8)
    requires
        k < 8,
    ensures
        bit_of(mono_fill_byte(color), k) == mono_pixel_bit(color),
{
    assert(k < 8 ==> (0xFFu8 >> k) & 1 == 1) by (bit_vector);
    assert((0x00u8 >> k) & 1 == 0) by (bit_vector);
}

} // verus!
