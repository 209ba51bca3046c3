//! Single-byte command opcodes of the SSD1683, keyed by name.
//!
//! The numbers are stable across the SSD168x family; the same hex value in
//! other drivers for these chips means the same command.
use vstd::prelude::*;

verus! {

/// `0x10`: deep sleep. One data byte (`0x01` = mode 1). Afterwards the chip
/// ignores everything until RST is pulsed.
pub const DEEP_SLEEP: u8 = 0x10;

/// `0x11`: data entry mode. One data byte, see [`crate::commands::DataEntryMode`].
pub const DATA_ENTRY_MODE: u8 = 0x11;

/// `0x12`: software reset. No data; BUSY goes high while it runs.
pub const SW_RESET: u8 = 0x12;

/// `0x18`: temperature sensor source. One data byte, see
/// [`crate::commands::TemperatureSource`].
pub const TEMP_CONTROL: u8 = 0x18;

/// `0x20`: master activate. Runs the update sequence configured by
/// [`DISPLAY_UPDATE_CONTROL_2`]; BUSY stays high until the refresh ends.
pub const MASTER_ACTIVATE: u8 = 0x20;

/// `0x21`: display update control 1. Two data bytes: how RAM1 and RAM2 are
/// mixed, and the source output range.
pub const DISPLAY_UPDATE_CONTROL_1: u8 = 0x21;

/// `0x22`: display update control 2. One data byte, a bitmask of the steps
/// the next [`MASTER_ACTIVATE`] runs, see [`crate::commands::UpdateSequence`].
pub const DISPLAY_UPDATE_CONTROL_2: u8 = 0x22;

/// `0x24`: write RAM 1 (black/white plane). Followed by any number of data bytes.
pub const WRITE_RAM_BW: u8 = 0x24;

/// `0x26`: write RAM 2 (red plane on a tri-color panel).
pub const WRITE_RAM_RED: u8 = 0x26;

/// `0x3C`: border waveform. One data byte, see [`crate::commands::BorderWaveform`].
pub const WRITE_BORDER: u8 = 0x3C;

/// `0x44`: RAM X address range. Two data bytes, start and end in byte units
/// (8 pixels each).
pub const SET_RAM_X_RANGE: u8 = 0x44;

/// `0x45`: RAM Y address range. Four data bytes: start and end rows as
/// little-endian 16-bit values.
pub const SET_RAM_Y_RANGE: u8 = 0x45;

/// `0x4E`: RAM X address counter. One data byte in byte units.
pub const SET_RAM_X_COUNTER: u8 = 0x4E;

/// `0x4F`: RAM Y address counter. Two data bytes, little-endian row.
pub const SET_RAM_Y_COUNTER: u8 = 0x4F;

} // verus!
