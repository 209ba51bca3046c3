//! Pulse encoding for the badge's WS2812 ("NeoPixel") RGB LED, sent through
//! the ESP32-C6 RMT peripheral at 80 MHz (12.5 ns per tick).
//!
//! The LED takes 24 bits, green then red then blue, most significant bit
//! first. Every bit is a high pulse followed by a low pulse; a one has a long
//! high part, a zero a short one. A zero-length code ends the transmission.
use vstd::prelude::*;

verus! {

/// High ticks of a zero bit.
pub const T0H: u16 = 30;
/// Low ticks of a zero bit.
pub const T0L: u16 = 70;
/// High ticks of a one bit.
pub const T1H: u16 = 70;
/// Low ticks of a one bit.
pub const T1L: u16 = 30;
/// Codes in one LED frame: 24 bits and the end marker.
pub const FRAME_LEN: usize = 25;

/// One RMT code.
#[derive(Debug, Clone, Copy, PartialEq, Eq, Structural)]
pub enum PulseCode {
    /// Drive high for `high` ticks, then low for `low` ticks.
    Pulse { high: u16, low: u16 },
    /// End of transmission.
    End,
}

/// The code of one data bit.
pub open spec fn bit_code(one: bool) -> PulseCode {
    if one { PulseCode::Pulse { high: T1H, low: T1L } } else { PulseCode::Pulse { high: T0H, low: T0L } }
}

/// The 24-bit GRB word of a color.
pub open spec fn grb_word(r: u8, g: u8, b: u8) -> u32 {
    ((g as u32) << 16) | ((r as u32) << 8) | (b as u32)
}

/// Bit `k` (0 = least significant) of a word.
pub open spec fn word_bit(w: u32, k: u32) -> bool {
    (w >> k) & 1 == 1
}

/// The codes of one LED frame for color `(r, g, b)`: code `i` carries bit
/// `23 - i` of the GRB word, then the end marker.
pub fn encode(r: u8, g: u8, b: u8) -> (codes: Vec<PulseCode>)
    ensures
        codes.len() == FRAME_LEN,
        forall|i: int| 0 <= i < 24 ==> #[trigger] codes@[i] == bit_code(word_bit(grb_word(r, g, b), (23 - i) as u32)),
        codes@[24] == PulseCode::End,
{
    let grb: u32 = ((g as u32) << 16) | ((r as u32) << 8) | (b as u32);
    let mut codes: Vec<PulseCode> = Vec::new();
    let mut i: u32 = 0;
    while i < 24
        invariant
            i <= 24,
            grb == grb_word(r, g, b),
            codes.len() == i,
            forall|j: int| 0 <= j < i ==> #[trigger] codes@[j] == bit_code(word_bit(grb, (23 - j) as u32)),
        decreases 24 - i,
    {
        let bit = (grb >> (23 - i)) & 1;
        if bit == 1 {
            codes.push(PulseCode::Pulse { high: T1H, low: T1L });
        } else {
            codes.push(PulseCode::Pulse { high: T0H, low: T0L });
        }
        i = i + 1;
    }
    codes.push(PulseCode::End);
    codes
}

/// The frame sends green, red and blue in that order, each most
/// significant bit first.
pub proof fn lemma_grb_order(r: u8, g: u8, b: u8, i: u32)
    requires
        i < 8,
    ensures
        word_bit(grb_word(r, g, b), (23 - i) as u32) == ((g >> (7 - i) as u8) & 1 == 1),
        word_bit(grb_word(r, g, b), (15 - i) as u32) == ((r >> (7 - i) as u8) & 1 == 1),
        word_bit(grb_word(r, g, b), (7 - i) as u32) == ((b >> (7 - i) as u8) & 1 == 1),
{
    let k = (7 - i) as u8;
    assert(i < 8 && k == 7 - i ==> ((((g as u32) << 16) | ((r as u32) << 8) | (b as u32)) >> ((23 - i) as u32)) & 1 == ((g >> k) & 1) as u32) by (bit_vector);
    assert(i < 8 && k == 7 - i ==> ((((g as u32) << 16) | ((r as u32) << 8) | (b as u32)) >> ((15 - i) as u32)) & 1 == ((r >> k) & 1) as u32) by (bit_vector);
    assert(i < 8 && k == 7 - i ==> ((((g as u32) << 16) | ((r as u32) << 8) | (b as u32)) >> ((7 - i) as u32)) & 1 == ((b >> k) & 1) as u32) by (bit_vector);
}

} // verus!
