//! The badge's display bring-up debug routine and its error report.
use vstd::prelude::*;
use crate::bus::{BusOp, BusAction, DriverError, append_ops};
use crate::commands::{DataEntryMode, BorderWaveform, TemperatureSource};
use crate::opcode::{DATA_ENTRY_MODE, WRITE_BORDER, TEMP_CONTROL, DISPLAY_UPDATE_CONTROL_1};
use crate::ssd1683::{
    Ssd1683, WIDTH, HEIGHT, reset_actions, command_with_data_actions,
    full_window_actions, ram_address_actions, flash_test_actions, dc_bytes, opcode_byte, data_bytes,
    lemma_reset_on_wire, lemma_dc_command, lemma_dc_silent, lemma_dc_bytes_append,
    lemma_dc_command_with_data, lemma_dc_full_window_and_origin, software_reset_actions, command_actions,
};
use crate::opcode::SW_RESET;

verus! {

/// Seconds the debug routine waits before it starts.
pub const DEBUG_START_DELAY_SECS: u64 = 3;
/// Seconds each flashed pattern stays on the panel.
pub const DEBUG_HOLD_SECS: u64 = 3;
/// How many times the debug routine cycles through its patterns.
pub const DEBUG_ROUNDS: usize = 20;

/// A failed display operation, as a message.
pub struct Failed(pub String);

impl Failed {
    /// The report of a driver error whose SPI or pin error was already
    /// formatted: that text, or "Busy Timeout".
    pub fn from_driver_error(err: DriverError<String, String>) -> (f: Failed)
        ensures
            match err {
                DriverError::Spi(s) => f.0@ == s@,
                DriverError::Pin(s) => f.0@ == s@,
                DriverError::BusyTimeout => f.0@ == "Busy Timeout"@,
            },
    {
        match err {
            DriverError::Pin(pin) => Failed(pin),
            DriverError::Spi(spi) => Failed(spi),
            DriverError::BusyTimeout => Failed("Busy Timeout".to_owned()),
        }
    }
}

/// The controller setup of the debug routine: hardware and software reset,
/// row-major data entry, default border, internal temperature sensor,
/// whole-panel window at the origin, and display update control 1 with
/// RAM 1 and RAM 2 used as they are.
pub open spec fn debug_setup_actions() -> Seq<BusAction> {
    reset_actions() + software_reset_actions()
        + command_with_data_actions(DATA_ENTRY_MODE, seq![0x03u8])
        + command_with_data_actions(WRITE_BORDER, seq![0x05u8])
        + command_with_data_actions(TEMP_CONTROL, seq![0x80u8])
        + full_window_actions() + ram_address_actions(0, 0)
        + command_with_data_actions(DISPLAY_UPDATE_CONTROL_1, seq![0x00u8, 0x00u8])
}

/// The (RAM 1 byte, RAM 2 byte) patterns the debug routine flashes, in order.
pub open spec fn debug_codes() -> Seq<(u8, u8)> {
    seq![(0xFFu8, 0x00u8), (0x00u8, 0x00u8), (0xFFu8, 0xFFu8)]
}

/// The debug routine's controller setup as the controller receives it,
/// after the hardware reset pulse: software reset `0x12`; data entry mode
/// `0x11` with `0x03` (X and Y increment, row-major, as in init); border
/// `0x3C` with `0x05`; temperature source `0x18` with `0x80` (internal);
/// the whole-panel window (`0x44` `[0x00, 0x31]`, `0x45` `[0x00, 0x00,
/// 0x2B, 0x01]`); the cursor at the origin (`0x4E` `[0x00]`, `0x4F`
/// `[0x00, 0x00]`); display update control 1 `0x21` with `[0x00, 0x00]`.
pub proof fn lemma_debug_setup_on_wire(dc: bool)
    ensures
        debug_setup_actions().take(7) == reset_actions(),
        dc_bytes(debug_setup_actions(), dc)
            == opcode_byte(0x12)
                + opcode_byte(0x11) + data_bytes(seq![0x03u8])
                + opcode_byte(0x3C) + data_bytes(seq![0x05u8])
                + opcode_byte(0x18) + data_bytes(seq![0x80u8])
                + opcode_byte(0x44) + data_bytes(seq![0x00u8, 0x31u8])
                + opcode_byte(0x45) + data_bytes(seq![0x00u8, 0x00u8, 0x2Bu8, 0x01u8])
                + opcode_byte(0x4E) + data_bytes(seq![0x00u8])
                + opcode_byte(0x4F) + data_bytes(seq![0x00u8, 0x00u8])
                + opcode_byte(0x21) + data_bytes(seq![0x00u8, 0x00u8]),
{
    let r = reset_actions();
    let sw = software_reset_actions();
    let e = command_with_data_actions(DATA_ENTRY_MODE, seq![0x03u8]);
    let b = command_with_data_actions(WRITE_BORDER, seq![0x05u8]);
    let t = command_with_data_actions(TEMP_CONTROL, seq![0x80u8]);
    let w = full_window_actions();
    let c = ram_address_actions(0, 0);
    let u = command_with_data_actions(DISPLAY_UPDATE_CONTROL_1, seq![0x00u8, 0x00u8]);
    assert(debug_setup_actions().take(7) =~= r);
    lemma_reset_on_wire(dc);
    lemma_dc_command(SW_RESET, dc);
    lemma_dc_silent(seq![BusAction::PanelWaitBusy], false);
    assert(sw =~= command_actions(SW_RESET) + seq![BusAction::PanelWaitBusy]);
    lemma_dc_bytes_append(command_actions(SW_RESET), seq![BusAction::PanelWaitBusy], dc);
    lemma_dc_command_with_data(DATA_ENTRY_MODE, seq![0x03u8], false);
    lemma_dc_command_with_data(WRITE_BORDER, seq![0x05u8], true);
    lemma_dc_command_with_data(TEMP_CONTROL, seq![0x80u8], true);
    lemma_dc_full_window_and_origin(true);
    lemma_dc_command_with_data(DISPLAY_UPDATE_CONTROL_1, seq![0x00u8, 0x00u8], true);
    lemma_dc_bytes_append(r, sw, dc);
    lemma_dc_bytes_append(r + sw, e, dc);
    lemma_dc_bytes_append(r + sw + e, b, dc);
    lemma_dc_bytes_append(r + sw + e + b, t, dc);
    lemma_dc_bytes_append(r + sw + e + b + t, w, dc);
    lemma_dc_bytes_append(r + sw + e + b + t + w, c, dc);
    lemma_dc_bytes_append(r + sw + e + b + t + w + c, u, dc);
    assert(debug_setup_actions() == r + sw + e + b + t + w + c + u);
    assert(dc_bytes(debug_setup_actions(), dc)
        =~= opcode_byte(0x12)
            + opcode_byte(0x11) + data_bytes(seq![0x03u8])
            + opcode_byte(0x3C) + data_bytes(seq![0x05u8])
            + opcode_byte(0x18) + data_bytes(seq![0x80u8])
            + opcode_byte(0x44) + data_bytes(seq![0x00u8, 0x31u8])
            + opcode_byte(0x45) + data_bytes(seq![0x00u8, 0x00u8, 0x2Bu8, 0x01u8])
            + opcode_byte(0x4E) + data_bytes(seq![0x00u8])
            + opcode_byte(0x4F) + data_bytes(seq![0x00u8, 0x00u8])
            + opcode_byte(0x21) + data_bytes(seq![0x00u8, 0x00u8]));
}

/// The bus traffic of the debug routine's controller setup.
pub fn debug_setup(epd: &Ssd1683) -> (ops: Vec<BusOp>)
    ensures
        ops.deep_view() == debug_setup_actions(),
{
    let mut ops = epd.reset();
    append_ops(&mut ops, epd.software_reset());
    append_ops(&mut ops, epd.set_data_entry_mode(DataEntryMode::IncrementXIncrementYXMajor));
    append_ops(&mut ops, epd.set_border_waveform(BorderWaveform::Default));
    append_ops(&mut ops, epd.set_temperature_source(TemperatureSource::Internal));
    append_ops(&mut ops, epd.set_ram_window(0, 0, WIDTH - 1, HEIGHT - 1));
    append_ops(&mut ops, epd.set_ram_address(0, 0));
    let d = [0u8, 0u8];
    assert(d@ =~= seq![0x00u8, 0x00u8]);
    append_ops(&mut ops, epd.command_with_data(DISPLAY_UPDATE_CONTROL_1, &d));
    ops
}

/// The patterns the debug routine flashes, one [`Ssd1683::flash_test`] each with a
/// [`DEBUG_HOLD_SECS`] pause after it: the three codes, [`DEBUG_ROUNDS`] times.
pub fn debug_flash_schedule() -> (codes: Vec<(u8, u8)>)
    ensures
        codes@.len() == 3 * DEBUG_ROUNDS,
        forall|k: int| 0 <= k < codes@.len() ==> #[trigger] codes@[k] == debug_codes()[k % 3],
{
    let mut codes: Vec<(u8, u8)> = Vec::new();
    let mut round: usize = 0;
    while round < DEBUG_ROUNDS
        invariant
            round <= DEBUG_ROUNDS,
            codes@.len() == 3 * round,
            forall|k: int| 0 <= k < codes@.len() ==> #[trigger] codes@[k] == debug_codes()[k % 3],
        decreases DEBUG_ROUNDS - round,
    {
        let ghost before = codes@;
        codes.push((0xFF, 0x00));
        codes.push((0x00, 0x00));
        codes.push((0xFF, 0xFF));
        assert forall|k: int| 0 <= k < codes@.len() implies #[trigger] codes@[k] == debug_codes()[k % 3] by {
            if k < before.len() {
                assert(codes@[k] == before[k]);
            } else {
                assert(k - 3 * round == 0 || k - 3 * round == 1 || k - 3 * round == 2);
                assert(k % 3 == k - 3 * round);
            }
        }
        round = round + 1;
    }
    codes
}

/// Milliseconds the debug routine waits before it starts.
pub open spec fn debug_start_delay_ms() -> u32 {
    (1000 * DEBUG_START_DELAY_SECS) as u32
}

/// Milliseconds each flashed pattern stays on the panel.
pub open spec fn debug_hold_ms() -> u32 {
    (1000 * DEBUG_HOLD_SECS) as u32
}

/// The flashes of the debug routine from the `k`-th on: each one a
/// [`flash_test_actions`] of the pattern `debug_codes()[k % 3]`, then a hold.
pub open spec fn debug_flash_actions(k: nat) -> Seq<BusAction>
    decreases 3 * DEBUG_ROUNDS - k,
{
    if k >= 3 * DEBUG_ROUNDS {
        Seq::empty()
    } else {
        flash_test_actions(debug_codes()[(k % 3) as int].0, debug_codes()[(k % 3) as int].1)
            + seq![BusAction::DelayMs(debug_hold_ms())]
            + debug_flash_actions(k + 1)
    }
}

/// The whole debug routine: wait, set the controller up, then flash the
/// patterns, holding each. Run in order, its first failure ends it.
pub open spec fn debug_actions() -> Seq<BusAction> {
    seq![BusAction::DelayMs(debug_start_delay_ms())] + debug_setup_actions() + debug_flash_actions(0)
}

/// The bus traffic of the whole debug routine.
pub fn debug_ops(epd: &Ssd1683) -> (ops: Vec<BusOp>)
    ensures
        ops.deep_view() == debug_actions(),
{
    let mut ops: Vec<BusOp> = Vec::new();
    ops.push(BusOp::DelayMs((1000 * DEBUG_START_DELAY_SECS) as u32));
    append_ops(&mut ops, debug_setup(epd));
    let codes = debug_flash_schedule();
    let hold: u32 = (1000 * DEBUG_HOLD_SECS) as u32;
    let mut k: usize = 0;
    assert(ops.deep_view() + debug_flash_actions(0) =~= debug_actions());
    while k < codes.len()
        invariant
            k <= codes@.len(),
            codes@.len() == 3 * DEBUG_ROUNDS,
            forall|j: int| 0 <= j < codes@.len() ==> #[trigger] codes@[j] == debug_codes()[j % 3],
            hold == debug_hold_ms(),
            ops.deep_view() + debug_flash_actions(k as nat) == debug_actions(),
        decreases codes@.len() - k,
    {
        let (bw, red) = codes[k];
        assert(codes@[k as int] == debug_codes()[k as int % 3]);
        let ghost before = ops.deep_view();
        append_ops(&mut ops, epd.flash_test(bw, red));
        ops.push(BusOp::DelayMs(hold));
        assert(ops.deep_view() =~= before + flash_test_actions(bw, red) + seq![BusAction::DelayMs(hold)]);
        assert(before + debug_flash_actions(k as nat) =~= ops.deep_view() + debug_flash_actions((k + 1) as nat));
        k = k + 1;
    }
    assert(debug_flash_actions(k as nat) =~= Seq::<BusAction>::empty());
    assert(ops.deep_view() =~= ops.deep_view() + Seq::<BusAction>::empty());
    ops
}

/// The debug routine: a 3 s pause, the controller setup, then sixty
/// flash tests cycling through all-white (RAM 1 `0xFF`, RAM 2 `0x00`),
/// all-black (`0x00`, `0x00`) and all-red (`0xFF`, `0xFF`), each followed
/// by a 3 s hold, and nothing after the last hold.
pub proof fn lemma_debug_routine(k: nat)
    requires
        k <= 60,
    ensures
        debug_actions() == seq![BusAction::DelayMs(3000)] + debug_setup_actions() + debug_flash_actions(0),
        k == 60 ==> debug_flash_actions(k) == Seq::<BusAction>::empty(),
        k < 60 ==> debug_flash_actions(k) == flash_test_actions(
            if k % 3 == 1 { 0x00u8 } else { 0xFFu8 },
            if k % 3 == 2 { 0xFFu8 } else { 0x00u8 },
        ) + seq![BusAction::DelayMs(3000)] + debug_flash_actions(k + 1),
{
}

} // verus!
