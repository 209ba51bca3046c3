//! Parameter enums of SSD1683 commands and their encodings.
//!
//! Cross-reference: SSD1683 datasheet, "Command Table" section.
use vstd::prelude::*;

verus! {

/// How the RAM address counter advances after each byte written (opcode `0x11`).
///
/// | Bit | Field |
/// | --- | --- |
/// | 0 | Y direction (1 = increment, 0 = decrement) |
/// | 1 | X direction (1 = increment, 0 = decrement) |
/// | 2 | address-update axis (0 = X-major: X first, Y on wrap) |
#[derive(Debug, Clone, Copy, PartialEq, Eq, Structural)]
pub enum DataEntryMode {
    /// X and Y increment, X-major: row-major framebuffer order. `0x03`.
    IncrementXIncrementYXMajor,
    /// X decrements, Y increments, X-major. `0x01`.
    DecrementXIncrementYXMajor,
    /// X increments, Y decrements, X-major. `0x02`.
    IncrementXDecrementYXMajor,
    /// X and Y decrement, X-major. `0x00`.
    DecrementXDecrementYXMajor,
}

impl DataEntryMode {
    /// Whether X advances upwards.
    pub open spec fn increments_x(self) -> bool {
        self is IncrementXIncrementYXMajor || self is IncrementXDecrementYXMajor
    }

    /// Whether Y advances upwards.
    pub open spec fn increments_y(self) -> bool {
        self is IncrementXIncrementYXMajor || self is DecrementXIncrementYXMajor
    }

    /// The encoding of the mode.
    pub open spec fn byte_spec(self) -> u8 {
        match self {
            DataEntryMode::DecrementXDecrementYXMajor => 0x00u8,
            DataEntryMode::DecrementXIncrementYXMajor => 0x01u8,
            DataEntryMode::IncrementXDecrementYXMajor => 0x02u8,
            DataEntryMode::IncrementXIncrementYXMajor => 0x03u8,
        }
    }

    /// The data byte of opcode `0x11`.
    pub fn byte(self) -> (b: u8)
        ensures
            b == self.byte_spec(),
            (b & 1 == 1) == self.increments_y(),
            (b & 2 == 2) == self.increments_x(),
            b & 4 == 0,
            b < 4,
    {
        let b: u8 = match self {
            DataEntryMode::DecrementXDecrementYXMajor => 0x00,
            DataEntryMode::DecrementXIncrementYXMajor => 0x01,
            DataEntryMode::IncrementXDecrementYXMajor => 0x02,
            DataEntryMode::IncrementXIncrementYXMajor => 0x03,
        };
        assert(0u8 & 1 == 0 && 0u8 & 2 == 0 && 0u8 & 4 == 0) by (bit_vector);
        assert(1u8 & 1 == 1 && 1u8 & 2 == 0 && 1u8 & 4 == 0) by (bit_vector);
        assert(2u8 & 1 == 0 && 2u8 & 2 == 2 && 2u8 & 4 == 0) by (bit_vector);
        assert(3u8 & 1 == 1 && 3u8 & 2 == 2 && 3u8 & 4 == 0) by (bit_vector);
        b
    }
}

/// Which thermistor the chip reads to pick its refresh waveform (opcode `0x18`).
#[derive(Debug, Clone, Copy, PartialEq, Eq, Structural)]
pub enum TemperatureSource {
    /// The sensor built into the SSD1683 die. `0x80`.
    Internal,
    /// An external thermistor over the chip's I2C master. `0x48`.
    ExternalI2c,
}

impl TemperatureSource {
    /// The encoding of the source.
    pub open spec fn byte_spec(self) -> u8 {
        match self {
            TemperatureSource::Internal => 0x80u8,
            TemperatureSource::ExternalI2c => 0x48u8,
        }
    }

    /// The data byte of opcode `0x18`.
    pub fn byte(self) -> (b: u8)
        ensures
            b == self.byte_spec(),
    {
        match self {
            TemperatureSource::Internal => 0x80,
            TemperatureSource::ExternalI2c => 0x48,
        }
    }
}

/// Waveform of the one-pixel border ring (opcode `0x3C`).
#[derive(Debug, Clone, Copy, PartialEq, Eq, Structural)]
pub enum BorderWaveform {
    /// `0x05`: GS transition, follow LUT1, VBD level VSS.
    Default,
}

impl BorderWaveform {
    /// The data byte of opcode `0x3C`.
    pub fn byte(self) -> (b: u8)
        ensures
            b == 0x05u8,
    {
        match self {
            BorderWaveform::Default => 0x05,
        }
    }
}

/// The steps the next master activate runs (opcode `0x22`).
#[derive(Debug, Clone, Copy, PartialEq, Eq, Structural)]
pub enum UpdateSequence {
    /// `0xF7`: enable clock and analog, read temperature, load the mode 1
    /// LUT, display, disable analog and oscillator: a full refresh.
    Full,
}

impl UpdateSequence {
    /// The data byte of opcode `0x22`.
    pub fn byte(self) -> (b: u8)
        ensures
            b == 0xF7u8,
    {
        match self {
            UpdateSequence::Full => 0xF7,
        }
    }
}

} // verus!
