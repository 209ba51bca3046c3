//! SSD1683 command encoder: the controller of the 4.2" 400x300 e-paper panel.
//!
//! Datasheet: <https://www.buydisplay.com/download/ic/SSD1683.pdf>
//!
//! The chip is an SPI slave with three side-band pins: DC (low before an
//! opcode byte, high before its data bytes), RST (active low hardware reset)
//! and BUSY (high while the chip works; the host waits for it to drop).
//! Every method here returns the bus operations of one command or command
//! sequence; [`Ssd1683::init`] walks the documented init sequence.
//!
//! Lifecycle: `init` → (write RAM) → `refresh` → (`sleep`).
use vstd::prelude::*;
use crate::bus::{BusOp, BusAction, append_ops, repeated};
use crate::commands::{DataEntryMode, BorderWaveform, TemperatureSource};
use crate::opcode::{
    DEEP_SLEEP, DATA_ENTRY_MODE, SW_RESET, TEMP_CONTROL, MASTER_ACTIVATE, DISPLAY_UPDATE_CONTROL_1,
    DISPLAY_UPDATE_CONTROL_2, WRITE_RAM_BW, WRITE_RAM_RED, WRITE_BORDER, SET_RAM_X_RANGE,
    SET_RAM_Y_RANGE, SET_RAM_X_COUNTER, SET_RAM_Y_COUNTER,
};

verus! {

/// Width of the panel in pixels (source outputs).
pub const WIDTH: u16 = 400;
/// Height of the panel in pixels (gate outputs).
pub const HEIGHT: u16 = 300;
/// Bytes in one full-panel plane: one bit per pixel.
pub const PLANE_LEN: usize = 15000;
/// Largest single SPI write of repeated or streamed framebuffer data.
pub const FLUSH_CHUNK: usize = 256;
/// Milliseconds the RST pin is held at each level during a hardware reset.
pub const RESET_HOLD_MS: u32 = 10;
/// Milliseconds to wait after entering deep sleep.
pub const SLEEP_SETTLE_MS: u32 = 100;
/// Data byte of opcode `0x22` for a full refresh.
pub const FULL_REFRESH: u8 = 0xF7;

/// Opcode byte with DC low.
pub open spec fn command_actions(cmd: u8) -> Seq<BusAction> {
    seq![BusAction::PanelDataCommand(false), BusAction::PanelWrite(seq![cmd])]
}

/// Data bytes with DC high, in one SPI write.
pub open spec fn data_actions(bytes: Seq<u8>) -> Seq<BusAction> {
    seq![BusAction::PanelDataCommand(true), BusAction::PanelWrite(bytes)]
}

pub open spec fn command_with_data_actions(cmd: u8, bytes: Seq<u8>) -> Seq<BusAction> {
    command_actions(cmd) + data_actions(bytes)
}

/// RST high, low, high, 10 ms each, then wait for BUSY to drop.
pub open spec fn reset_actions() -> Seq<BusAction> {
    seq![
        BusAction::PanelReset(true), BusAction::DelayMs(10),
        BusAction::PanelReset(false), BusAction::DelayMs(10),
        BusAction::PanelReset(true), BusAction::DelayMs(10),
        BusAction::PanelWaitBusy,
    ]
}

pub open spec fn software_reset_actions() -> Seq<BusAction> {
    command_actions(SW_RESET).push(BusAction::PanelWaitBusy)
}

/// Opcode `0x44` with the X range in bytes (pixel / 8), then opcode `0x45`
/// with the Y range as little-endian 16-bit rows.
pub open spec fn ram_window_actions(x1: u16, y1: u16, x2: u16, y2: u16) -> Seq<BusAction> {
    command_with_data_actions(SET_RAM_X_RANGE, seq![(x1 >> 3) as u8, (x2 >> 3) as u8])
        + command_with_data_actions(SET_RAM_Y_RANGE, seq![y1 as u8, (y1 >> 8) as u8, y2 as u8, (y2 >> 8) as u8])
}

/// Opcode `0x4E` with the X byte (pixel / 8), then opcode `0x4F` with the
/// row as a little-endian 16-bit value.
pub open spec fn ram_address_actions(x: u16, y: u16) -> Seq<BusAction> {
    command_with_data_actions(SET_RAM_X_COUNTER, seq![(x >> 3) as u8])
        + command_with_data_actions(SET_RAM_Y_COUNTER, seq![y as u8, (y >> 8) as u8])
}

pub open spec fn refresh_actions() -> Seq<BusAction> {
    command_with_data_actions(DISPLAY_UPDATE_CONTROL_2, seq![FULL_REFRESH])
        + command_actions(MASTER_ACTIVATE).push(BusAction::PanelWaitBusy)
}

pub open spec fn sleep_actions() -> Seq<BusAction> {
    command_with_data_actions(DEEP_SLEEP, seq![0x01u8]).push(BusAction::DelayMs(SLEEP_SETTLE_MS))
}

/// Whole-panel RAM window and cursor at the origin.
pub open spec fn full_window_actions() -> Seq<BusAction> {
    ram_window_actions(0, 0, (WIDTH - 1) as u16, (HEIGHT - 1) as u16)
}

/// Hardware reset, software reset, row-major data entry, display update
/// control 1 `[0x40, 0x00]`, default border, internal temperature sensor,
/// whole-panel window, cursor at the origin.
pub open spec fn init_actions() -> Seq<BusAction> {
    reset_actions() + software_reset_actions()
        + command_with_data_actions(DATA_ENTRY_MODE, seq![0x03u8])
        + command_with_data_actions(DISPLAY_UPDATE_CONTROL_1, seq![0x40u8, 0x00u8])
        + command_with_data_actions(WRITE_BORDER, seq![0x05u8])
        + command_with_data_actions(TEMP_CONTROL, seq![0x80u8])
        + full_window_actions() + ram_address_actions(0, 0)
}

/// Size of the next chunk when `sent` of `total` bytes went out.
pub open spec fn chunk_len(sent: nat, total: nat) -> nat {
    if total - sent < FLUSH_CHUNK { (total - sent) as nat } else { FLUSH_CHUNK as nat }
}

/// `total - sent` copies of `byte` as panel data, in chunks of at most
/// [`FLUSH_CHUNK`] bytes, each with DC high.
pub open spec fn repeated_data_actions(byte: u8, sent: nat, total: nat) -> Seq<BusAction>
    decreases total - sent,
{
    if sent >= total {
        Seq::empty()
    } else {
        data_actions(repeated(byte, chunk_len(sent, total)))
            + repeated_data_actions(byte, sent + chunk_len(sent, total), total)
    }
}

pub open spec fn flash_test_actions(bw_byte: u8, red_byte: u8) -> Seq<BusAction> {
    full_window_actions() + ram_address_actions(0, 0) + command_actions(WRITE_RAM_BW)
        + repeated_data_actions(bw_byte, 0, PLANE_LEN as nat)
        + ram_address_actions(0, 0) + command_actions(WRITE_RAM_RED)
        + repeated_data_actions(red_byte, 0, PLANE_LEN as nat)
        + refresh_actions()
}

/// The bytes that panel writes put on the wire, concatenated.
pub open spec fn panel_bytes(acts: Seq<BusAction>) -> Seq<u8>
    decreases acts.len(),
{
    if acts.len() == 0 {
        Seq::empty()
    } else {
        (match acts[0] {
            BusAction::PanelWrite(b) => b,
            _ => Seq::<u8>::empty(),
        }) + panel_bytes(acts.drop_first())
    }
}

pub proof fn lemma_panel_bytes_append(a: Seq<BusAction>, b: Seq<BusAction>)
    ensures
        panel_bytes(a + b) == panel_bytes(a) + panel_bytes(b),
    decreases a.len(),
{
    if a.len() == 0 {
        assert(a + b =~= b);
        assert(panel_bytes(a) + panel_bytes(b) =~= panel_bytes(b));
    } else {
        assert((a + b).drop_first() =~= a.drop_first() + b);
        assert((a + b)[0] == a[0]);
        lemma_panel_bytes_append(a.drop_first(), b);
        assert(panel_bytes(a + b) =~= panel_bytes(a) + panel_bytes(b));
    }
}

/// Chunked repeated data puts exactly `total - sent` copies of the byte on
/// the wire, every chunk with DC high and at most [`FLUSH_CHUNK`] long.
pub proof fn lemma_repeated_data(byte: u8, sent: nat, total: nat)
    ensures
        panel_bytes(repeated_data_actions(byte, sent, total)) == repeated(byte, if sent >= total { 0nat } else { (total - sent) as nat }),
        forall|i: int| 0 <= i < repeated_data_actions(byte, sent, total).len() ==> match #[trigger] repeated_data_actions(byte, sent, total)[i] {
            BusAction::PanelWrite(b) => b.len() <= FLUSH_CHUNK,
            BusAction::PanelDataCommand(level) => level,
            _ => false,
        },
    decreases total - sent,
{
    if sent < total {
        let n = chunk_len(sent, total);
        let head = data_actions(repeated(byte, n));
        let rest = repeated_data_actions(byte, sent + n, total);
        lemma_repeated_data(byte, sent + n, total);
        lemma_panel_bytes_append(head, rest);
        assert(head.drop_first().drop_first() =~= Seq::<BusAction>::empty());
        assert(panel_bytes(head.drop_first()) == repeated(byte, n) + panel_bytes(head.drop_first().drop_first()));
        assert(panel_bytes(head) =~= repeated(byte, n));
        assert(panel_bytes(repeated_data_actions(byte, sent, total)) =~= repeated(byte, (total - sent) as nat));
        let all = repeated_data_actions(byte, sent, total);
        assert(all == head + rest);
        assert forall|i: int| 0 <= i < all.len() implies match #[trigger] all[i] {
            BusAction::PanelWrite(b) => b.len() <= FLUSH_CHUNK,
            BusAction::PanelDataCommand(level) => level,
            _ => false,
        } by {
            if i >= 2 {
                assert(all[i] == rest[i - 2]);
            }
        }
    } else {
        assert(panel_bytes(Seq::<BusAction>::empty()) =~= repeated(byte, 0));
    }
}

/// The panel bytes of the flash test: window and cursor commands, then
/// exactly `PLANE_LEN` copies of `bw_byte` into RAM 1, the cursor again, then
/// exactly `PLANE_LEN` copies of `red_byte` into RAM 2, then the refresh.
pub proof fn lemma_flash_test_bytes(bw_byte: u8, red_byte: u8)
    ensures
        panel_bytes(flash_test_actions(bw_byte, red_byte))
            == panel_bytes(full_window_actions() + ram_address_actions(0, 0) + command_actions(WRITE_RAM_BW))
                + repeated(bw_byte, PLANE_LEN as nat)
                + panel_bytes(ram_address_actions(0, 0) + command_actions(WRITE_RAM_RED))
                + repeated(red_byte, PLANE_LEN as nat)
                + panel_bytes(refresh_actions()),
{
    let a = full_window_actions() + ram_address_actions(0, 0) + command_actions(WRITE_RAM_BW);
    let b = repeated_data_actions(bw_byte, 0, PLANE_LEN as nat);
    let c = ram_address_actions(0, 0) + command_actions(WRITE_RAM_RED);
    let d = repeated_data_actions(red_byte, 0, PLANE_LEN as nat);
    let e = refresh_actions();
    assert(flash_test_actions(bw_byte, red_byte) =~= a + (b + (c + (d + e))));
    lemma_repeated_data(bw_byte, 0, PLANE_LEN as nat);
    lemma_repeated_data(red_byte, 0, PLANE_LEN as nat);
    lemma_panel_bytes_append(a, b + (c + (d + e)));
    lemma_panel_bytes_append(b, c + (d + e));
    lemma_panel_bytes_append(c, d + e);
    lemma_panel_bytes_append(d, e);
    assert(panel_bytes(flash_test_actions(bw_byte, red_byte)) =~= panel_bytes(a) + repeated(bw_byte, PLANE_LEN as nat)
        + panel_bytes(c) + repeated(red_byte, PLANE_LEN as nat) + panel_bytes(e));
}

/// Bytes as the controller takes them: each with the DC level it was
/// written at (`false`: an opcode, `true`: a data byte).
pub open spec fn tagged(bytes: Seq<u8>, dc: bool) -> Seq<(bool, u8)> {
    bytes.map_values(|b: u8| (dc, b))
}

/// One opcode byte.
pub open spec fn opcode_byte(op: u8) -> Seq<(bool, u8)> {
    seq![(false, op)]
}

/// Data bytes.
pub open spec fn data_bytes(bytes: Seq<u8>) -> Seq<(bool, u8)> {
    tagged(bytes, true)
}

/// What the controller receives while `acts` run with DC at level `dc`
/// at the start: every byte written to it, tagged with the DC level of
/// the moment.
pub open spec fn dc_bytes(acts: Seq<BusAction>, dc: bool) -> Seq<(bool, u8)>
    decreases acts.len(),
{
    if acts.len() == 0 {
        Seq::empty()
    } else {
        match acts[0] {
            BusAction::PanelDataCommand(level) => dc_bytes(acts.drop_first(), level),
            BusAction::PanelWrite(b) => tagged(b, dc) + dc_bytes(acts.drop_first(), dc),
            _ => dc_bytes(acts.drop_first(), dc),
        }
    }
}

/// The DC level after `acts` run with DC at level `dc` at the start.
pub open spec fn dc_after(acts: Seq<BusAction>, dc: bool) -> bool
    decreases acts.len(),
{
    if acts.len() == 0 {
        dc
    } else {
        match acts[0] {
            BusAction::PanelDataCommand(level) => dc_after(acts.drop_first(), level),
            _ => dc_after(acts.drop_first(), dc),
        }
    }
}

pub proof fn lemma_dc_bytes_append(a: Seq<BusAction>, b: Seq<BusAction>, dc: bool)
    ensures
        dc_bytes(a + b, dc) == dc_bytes(a, dc) + dc_bytes(b, dc_after(a, dc)),
        dc_after(a + b, dc) == dc_after(b, dc_after(a, dc)),
    decreases a.len(),
{
    if a.len() == 0 {
        assert(a + b =~= b);
        assert(dc_bytes(a, dc) + dc_bytes(b, dc) =~= dc_bytes(b, dc));
    } else {
        assert((a + b).drop_first() =~= a.drop_first() + b);
        assert((a + b)[0] == a[0]);
        match a[0] {
            BusAction::PanelDataCommand(level) => {
                lemma_dc_bytes_append(a.drop_first(), b, level);
            },
            BusAction::PanelWrite(w) => {
                lemma_dc_bytes_append(a.drop_first(), b, dc);
                assert(dc_bytes(a + b, dc) =~= dc_bytes(a, dc) + dc_bytes(b, dc_after(a, dc)));
            },
            _ => {
                lemma_dc_bytes_append(a.drop_first(), b, dc);
            },
        }
    }
}

proof fn lemma_dc_two(level: bool, w: Seq<u8>, dc: bool)
    ensures
        dc_bytes(seq![BusAction::PanelDataCommand(level), BusAction::PanelWrite(w)], dc) == tagged(w, level),
        dc_after(seq![BusAction::PanelDataCommand(level), BusAction::PanelWrite(w)], dc) == level,
{
    let s = seq![BusAction::PanelDataCommand(level), BusAction::PanelWrite(w)];
    let t = s.drop_first();
    assert(t.drop_first() =~= Seq::<BusAction>::empty());
    assert(t[0] == BusAction::PanelWrite(w));
    assert(dc_bytes(t, level) =~= tagged(w, level) + dc_bytes(t.drop_first(), level));
    assert(dc_bytes(s, dc) =~= tagged(w, level));
    assert(dc_after(t.drop_first(), level) == level);
    assert(dc_after(t, level) == dc_after(t.drop_first(), level));
    assert(s[0] == BusAction::PanelDataCommand(level));
}

/// An opcode goes out as one command byte, and leaves DC low.
pub proof fn lemma_dc_command(op: u8, dc: bool)
    ensures
        dc_bytes(command_actions(op), dc) == opcode_byte(op),
        dc_after(command_actions(op), dc) == false,
{
    lemma_dc_two(false, seq![op], dc);
    assert(tagged(seq![op], false) =~= opcode_byte(op));
}

/// Data goes out as data bytes, and leaves DC high.
pub proof fn lemma_dc_data(bytes: Seq<u8>, dc: bool)
    ensures
        dc_bytes(data_actions(bytes), dc) == data_bytes(bytes),
        dc_after(data_actions(bytes), dc) == true,
{
    lemma_dc_two(true, bytes, dc);
}

/// An opcode with its data: the command byte, then the data bytes.
pub proof fn lemma_dc_command_with_data(op: u8, bytes: Seq<u8>, dc: bool)
    ensures
        dc_bytes(command_with_data_actions(op, bytes), dc) == opcode_byte(op) + data_bytes(bytes),
        dc_after(command_with_data_actions(op, bytes), dc) == true,
{
    lemma_dc_command(op, dc);
    lemma_dc_data(bytes, false);
    lemma_dc_bytes_append(command_actions(op), data_actions(bytes), dc);
}

/// Chunked repeated data reaches the controller as `total - sent` data
/// bytes of that value.
pub proof fn lemma_dc_repeated(byte: u8, sent: nat, total: nat, dc: bool)
    requires
        sent <= total,
    ensures
        dc_bytes(repeated_data_actions(byte, sent, total), dc) == data_bytes(repeated(byte, (total - sent) as nat)),
        dc_after(repeated_data_actions(byte, sent, total), dc) == (if sent < total { true } else { dc }),
    decreases total - sent,
{
    if sent < total {
        let n = chunk_len(sent, total);
        let head = data_actions(repeated(byte, n));
        let rest = repeated_data_actions(byte, sent + n, total);
        lemma_dc_data(repeated(byte, n), dc);
        lemma_dc_repeated(byte, sent + n, total, true);
        lemma_dc_bytes_append(head, rest, dc);
        assert(repeated_data_actions(byte, sent, total) == head + rest);
        assert(data_bytes(repeated(byte, n)) + data_bytes(repeated(byte, (total - (sent + n)) as nat))
            =~= data_bytes(repeated(byte, (total - sent) as nat)));
    } else {
        assert(data_bytes(repeated(byte, 0)) =~= Seq::<(bool, u8)>::empty());
    }
}

/// The RAM window command pair on the wire.
pub proof fn lemma_dc_window(x1: u16, y1: u16, x2: u16, y2: u16, dc: bool)
    ensures
        dc_bytes(ram_window_actions(x1, y1, x2, y2), dc)
            == opcode_byte(SET_RAM_X_RANGE) + data_bytes(seq![(x1 >> 3) as u8, (x2 >> 3) as u8])
                + opcode_byte(SET_RAM_Y_RANGE) + data_bytes(seq![y1 as u8, (y1 >> 8) as u8, y2 as u8, (y2 >> 8) as u8]),
        dc_after(ram_window_actions(x1, y1, x2, y2), dc) == true,
{
    let a = command_with_data_actions(SET_RAM_X_RANGE, seq![(x1 >> 3) as u8, (x2 >> 3) as u8]);
    let b = command_with_data_actions(SET_RAM_Y_RANGE, seq![y1 as u8, (y1 >> 8) as u8, y2 as u8, (y2 >> 8) as u8]);
    lemma_dc_command_with_data(SET_RAM_X_RANGE, seq![(x1 >> 3) as u8, (x2 >> 3) as u8], dc);
    lemma_dc_command_with_data(SET_RAM_Y_RANGE, seq![y1 as u8, (y1 >> 8) as u8, y2 as u8, (y2 >> 8) as u8], true);
    lemma_dc_bytes_append(a, b, dc);
}

/// The RAM cursor command pair on the wire.
pub proof fn lemma_dc_cursor(x: u16, y: u16, dc: bool)
    ensures
        dc_bytes(ram_address_actions(x, y), dc)
            == opcode_byte(SET_RAM_X_COUNTER) + data_bytes(seq![(x >> 3) as u8])
                + opcode_byte(SET_RAM_Y_COUNTER) + data_bytes(seq![y as u8, (y >> 8) as u8]),
        dc_after(ram_address_actions(x, y), dc) == true,
{
    let a = command_with_data_actions(SET_RAM_X_COUNTER, seq![(x >> 3) as u8]);
    let b = command_with_data_actions(SET_RAM_Y_COUNTER, seq![y as u8, (y >> 8) as u8]);
    lemma_dc_command_with_data(SET_RAM_X_COUNTER, seq![(x >> 3) as u8], dc);
    lemma_dc_command_with_data(SET_RAM_Y_COUNTER, seq![y as u8, (y >> 8) as u8], true);
    lemma_dc_bytes_append(a, b, dc);
}

/// The whole-panel window and the origin cursor, byte by byte.
pub proof fn lemma_dc_full_window_and_origin(dc: bool)
    ensures
        dc_bytes(full_window_actions(), dc)
            == opcode_byte(0x44) + data_bytes(seq![0x00u8, 0x31u8])
                + opcode_byte(0x45) + data_bytes(seq![0x00u8, 0x00u8, 0x2Bu8, 0x01u8]),
        dc_after(full_window_actions(), dc) == true,
        dc_bytes(ram_address_actions(0, 0), dc)
            == opcode_byte(0x4E) + data_bytes(seq![0x00u8]) + opcode_byte(0x4F) + data_bytes(seq![0x00u8, 0x00u8]),
        dc_after(ram_address_actions(0, 0), dc) == true,
{
    lemma_dc_window(0, 0, (WIDTH - 1) as u16, (HEIGHT - 1) as u16, dc);
    lemma_dc_cursor(0, 0, dc);
    assert((0u16 >> 3u16) as u8 == 0u8 && (399u16 >> 3u16) as u8 == 0x31u8 && (0u16 >> 8u16) as u8 == 0u8
        && 299u16 as u8 == 0x2Bu8 && (299u16 >> 8u16) as u8 == 1u8 && 0u16 as u8 == 0u8) by (bit_vector);
    assert(seq![(0u16 >> 3) as u8, (399u16 >> 3) as u8] =~= seq![0x00u8, 0x31u8]);
    assert(seq![0u16 as u8, (0u16 >> 8) as u8, 299u16 as u8, (299u16 >> 8) as u8] =~= seq![0x00u8, 0x00u8, 0x2Bu8, 0x01u8]);
    assert(seq![(0u16 >> 3) as u8] =~= seq![0x00u8]);
    assert(seq![0u16 as u8, (0u16 >> 8) as u8] =~= seq![0x00u8, 0x00u8]);
}

/// The flash test as the controller receives it, whatever DC was before:
/// opcode `0x44` with `[0x00, 0x31]` and `0x45` with `[0x00, 0x00, 0x2B,
/// 0x01]` (the whole 400x300 panel), the cursor to the origin (`0x4E`
/// `[0x00]`, `0x4F` `[0x00, 0x00]`), opcode `0x24` (RAM 1) followed by
/// 15000 data bytes of `bw_byte`, the cursor to the origin again, opcode
/// `0x26` (RAM 2) followed by 15000 data bytes of `red_byte`, then opcode
/// `0x22` with `0xF7` and opcode `0x20` (full refresh). Every opcode byte
/// goes out with DC low and every parameter byte with DC high.
pub proof fn lemma_flash_test_on_wire(bw_byte: u8, red_byte: u8, dc: bool)
    ensures
        dc_bytes(flash_test_actions(bw_byte, red_byte), dc)
            == opcode_byte(0x44) + data_bytes(seq![0x00u8, 0x31u8])
                + opcode_byte(0x45) + data_bytes(seq![0x00u8, 0x00u8, 0x2Bu8, 0x01u8])
                + opcode_byte(0x4E) + data_bytes(seq![0x00u8])
                + opcode_byte(0x4F) + data_bytes(seq![0x00u8, 0x00u8])
                + opcode_byte(0x24) + data_bytes(repeated(bw_byte, 15000))
                + opcode_byte(0x4E) + data_bytes(seq![0x00u8])
                + opcode_byte(0x4F) + data_bytes(seq![0x00u8, 0x00u8])
                + opcode_byte(0x26) + data_bytes(repeated(red_byte, 15000))
                + opcode_byte(0x22) + data_bytes(seq![0xF7u8])
                + opcode_byte(0x20),
{
    let w = full_window_actions();
    let c = ram_address_actions(0, 0);
    let o1 = command_actions(WRITE_RAM_BW);
    let r1 = repeated_data_actions(bw_byte, 0, PLANE_LEN as nat);
    let o2 = command_actions(WRITE_RAM_RED);
    let r2 = repeated_data_actions(red_byte, 0, PLANE_LEN as nat);
    let u = command_with_data_actions(DISPLAY_UPDATE_CONTROL_2, seq![FULL_REFRESH]);
    let m = command_actions(MASTER_ACTIVATE);
    let z = seq![BusAction::PanelWaitBusy];
    assert(refresh_actions() =~= u + (m + z));
    assert(flash_test_actions(bw_byte, red_byte) =~= w + (c + (o1 + (r1 + (c + (o2 + (r2 + (u + (m + z)))))))));
    lemma_dc_full_window_and_origin(dc);
    lemma_dc_full_window_and_origin(true);
    lemma_dc_command(WRITE_RAM_BW, true);
    lemma_dc_repeated(bw_byte, 0, PLANE_LEN as nat, false);
    lemma_dc_command(WRITE_RAM_RED, true);
    lemma_dc_repeated(red_byte, 0, PLANE_LEN as nat, false);
    lemma_dc_command_with_data(DISPLAY_UPDATE_CONTROL_2, seq![FULL_REFRESH], true);
    lemma_dc_command(MASTER_ACTIVATE, true);
    assert(dc_bytes(z, false) =~= Seq::<(bool, u8)>::empty()) by {
        assert(z.drop_first() =~= Seq::<BusAction>::empty());
        assert(z[0] == BusAction::PanelWaitBusy);
        assert(dc_bytes(z.drop_first(), false) =~= Seq::<(bool, u8)>::empty());
    }
    lemma_dc_bytes_append(m, z, true);
    lemma_dc_bytes_append(u, m + z, true);
    lemma_dc_bytes_append(r2, u + (m + z), false);
    lemma_dc_bytes_append(o2, r2 + (u + (m + z)), true);
    lemma_dc_bytes_append(c, o2 + (r2 + (u + (m + z))), true);
    lemma_dc_bytes_append(r1, c + (o2 + (r2 + (u + (m + z)))), false);
    lemma_dc_bytes_append(o1, r1 + (c + (o2 + (r2 + (u + (m + z))))), true);
    lemma_dc_bytes_append(c, o1 + (r1 + (c + (o2 + (r2 + (u + (m + z)))))), true);
    lemma_dc_bytes_append(w, c + (o1 + (r1 + (c + (o2 + (r2 + (u + (m + z))))))), dc);
    assert(dc_bytes(flash_test_actions(bw_byte, red_byte), dc)
        =~= opcode_byte(0x44) + data_bytes(seq![0x00u8, 0x31u8])
            + opcode_byte(0x45) + data_bytes(seq![0x00u8, 0x00u8, 0x2Bu8, 0x01u8])
            + opcode_byte(0x4E) + data_bytes(seq![0x00u8])
            + opcode_byte(0x4F) + data_bytes(seq![0x00u8, 0x00u8])
            + opcode_byte(0x24) + data_bytes(repeated(bw_byte, 15000))
            + opcode_byte(0x4E) + data_bytes(seq![0x00u8])
            + opcode_byte(0x4F) + data_bytes(seq![0x00u8, 0x00u8])
            + opcode_byte(0x26) + data_bytes(repeated(red_byte, 15000))
            + opcode_byte(0x22) + data_bytes(seq![0xF7u8])
            + opcode_byte(0x20));
}

/// Actions that neither drive DC nor write to the controller send it
/// nothing and leave DC as it was.
pub proof fn lemma_dc_silent(acts: Seq<BusAction>, dc: bool)
    requires
        forall|i: int| 0 <= i < acts.len() ==> !(#[trigger] acts[i] is PanelDataCommand) && !(acts[i] is PanelWrite),
    ensures
        dc_bytes(acts, dc) == Seq::<(bool, u8)>::empty(),
        dc_after(acts, dc) == dc,
    decreases acts.len(),
{
    if acts.len() > 0 {
        assert(!(acts[0] is PanelDataCommand) && !(acts[0] is PanelWrite));
        assert forall|i: int| 0 <= i < acts.drop_first().len() implies
            !(#[trigger] acts.drop_first()[i] is PanelDataCommand) && !(acts.drop_first()[i] is PanelWrite) by {
            assert(acts.drop_first()[i] == acts[i + 1]);
        }
        lemma_dc_silent(acts.drop_first(), dc);
    }
}

/// The RAM window on the wire, for columns below 2048: opcode `0x44` with
/// the first and last byte column (`x / 8`), then opcode `0x45` with the
/// first and last row, each low byte first.
pub proof fn lemma_window_on_wire(x1: u16, y1: u16, x2: u16, y2: u16, dc: bool)
    requires
        x1 < 2048,
        x2 < 2048,
    ensures
        dc_bytes(ram_window_actions(x1, y1, x2, y2), dc)
            == opcode_byte(0x44) + data_bytes(seq![(x1 / 8) as u8, (x2 / 8) as u8])
                + opcode_byte(0x45) + data_bytes(seq![(y1 % 256) as u8, (y1 / 256) as u8, (y2 % 256) as u8, (y2 / 256) as u8]),
{
    lemma_dc_window(x1, y1, x2, y2, dc);
    assert(x1 < 2048 ==> (x1 >> 3) as u8 == (x1 / 8) as u8) by (bit_vector);
    assert(x2 < 2048 ==> (x2 >> 3) as u8 == (x2 / 8) as u8) by (bit_vector);
    assert(y1 as u8 == (y1 % 256) as u8 && (y1 >> 8) as u8 == (y1 / 256) as u8) by (bit_vector);
    assert(y2 as u8 == (y2 % 256) as u8 && (y2 >> 8) as u8 == (y2 / 256) as u8) by (bit_vector);
    assert(seq![(x1 >> 3) as u8, (x2 >> 3) as u8] =~= seq![(x1 / 8) as u8, (x2 / 8) as u8]);
    assert(seq![y1 as u8, (y1 >> 8) as u8, y2 as u8, (y2 >> 8) as u8]
        =~= seq![(y1 % 256) as u8, (y1 / 256) as u8, (y2 % 256) as u8, (y2 / 256) as u8]);
}

/// The RAM cursor on the wire, for columns below 2048: opcode `0x4E` with
/// the byte column `x / 8`, then opcode `0x4F` with the row, low byte first.
pub proof fn lemma_cursor_on_wire(x: u16, y: u16, dc: bool)
    requires
        x < 2048,
    ensures
        dc_bytes(ram_address_actions(x, y), dc)
            == opcode_byte(0x4E) + data_bytes(seq![(x / 8) as u8])
                + opcode_byte(0x4F) + data_bytes(seq![(y % 256) as u8, (y / 256) as u8]),
{
    lemma_dc_cursor(x, y, dc);
    assert(x < 2048 ==> (x >> 3) as u8 == (x / 8) as u8) by (bit_vector);
    assert(y as u8 == (y % 256) as u8 && (y >> 8) as u8 == (y / 256) as u8) by (bit_vector);
    assert(seq![(x >> 3) as u8] =~= seq![(x / 8) as u8]);
    assert(seq![y as u8, (y >> 8) as u8] =~= seq![(y % 256) as u8, (y / 256) as u8]);
}

/// A full refresh on the wire: opcode `0x22` with `0xF7`, then opcode
/// `0x20`; the host then waits for BUSY to drop.
pub proof fn lemma_refresh_on_wire(dc: bool)
    ensures
        dc_bytes(refresh_actions(), dc) == opcode_byte(0x22) + data_bytes(seq![0xF7u8]) + opcode_byte(0x20),
        refresh_actions().last() == BusAction::PanelWaitBusy,
{
    let u = command_with_data_actions(DISPLAY_UPDATE_CONTROL_2, seq![FULL_REFRESH]);
    let m = command_actions(MASTER_ACTIVATE);
    let z = seq![BusAction::PanelWaitBusy];
    assert(refresh_actions() =~= u + m + z);
    lemma_dc_command_with_data(DISPLAY_UPDATE_CONTROL_2, seq![FULL_REFRESH], dc);
    lemma_dc_command(MASTER_ACTIVATE, true);
    lemma_dc_silent(z, false);
    lemma_dc_bytes_append(u, m, dc);
    lemma_dc_bytes_append(u + m, z, dc);
    assert(dc_bytes(refresh_actions(), dc) =~= opcode_byte(0x22) + data_bytes(seq![0xF7u8]) + opcode_byte(0x20));
}

/// Deep sleep on the wire: opcode `0x10` with `0x01` (mode 1), then a 100 ms pause.
pub proof fn lemma_sleep_on_wire(dc: bool)
    ensures
        dc_bytes(sleep_actions(), dc) == opcode_byte(0x10) + data_bytes(seq![0x01u8]),
        sleep_actions().last() == BusAction::DelayMs(100),
{
    let a = command_with_data_actions(DEEP_SLEEP, seq![0x01u8]);
    let z = seq![BusAction::DelayMs(SLEEP_SETTLE_MS)];
    assert(sleep_actions() =~= a + z);
    lemma_dc_command_with_data(DEEP_SLEEP, seq![0x01u8], dc);
    lemma_dc_silent(z, true);
    lemma_dc_bytes_append(a, z, dc);
    assert(dc_bytes(sleep_actions(), dc) =~= opcode_byte(0x10) + data_bytes(seq![0x01u8]));
}

/// The hardware reset: RST high, low, high with 10 ms at each level, then
/// a wait for BUSY; the controller receives no byte and DC is not driven.
pub proof fn lemma_reset_on_wire(dc: bool)
    ensures
        reset_actions() == seq![
            BusAction::PanelReset(true), BusAction::DelayMs(10),
            BusAction::PanelReset(false), BusAction::DelayMs(10),
            BusAction::PanelReset(true), BusAction::DelayMs(10),
            BusAction::PanelWaitBusy,
        ],
        dc_bytes(reset_actions(), dc) == Seq::<(bool, u8)>::empty(),
        dc_after(reset_actions(), dc) == dc,
{
    lemma_dc_silent(reset_actions(), dc);
}

/// The init sequence as the controller receives it, after the hardware
/// reset: software reset `0x12`; data entry mode `0x11` with `0x03` (X and
/// Y increment, row-major); display update control 1 `0x21` with
/// `[0x40, 0x00]`; border `0x3C` with `0x05`; temperature source `0x18`
/// with `0x80` (internal); the whole-panel window; the cursor at the origin.
pub proof fn lemma_init_on_wire(dc: bool)
    ensures
        init_actions().take(7) == reset_actions(),
        dc_bytes(init_actions(), dc)
            == opcode_byte(0x12)
                + opcode_byte(0x11) + data_bytes(seq![0x03u8])
                + opcode_byte(0x21) + data_bytes(seq![0x40u8, 0x00u8])
                + opcode_byte(0x3C) + data_bytes(seq![0x05u8])
                + opcode_byte(0x18) + data_bytes(seq![0x80u8])
                + opcode_byte(0x44) + data_bytes(seq![0x00u8, 0x31u8])
                + opcode_byte(0x45) + data_bytes(seq![0x00u8, 0x00u8, 0x2Bu8, 0x01u8])
                + opcode_byte(0x4E) + data_bytes(seq![0x00u8])
                + opcode_byte(0x4F) + data_bytes(seq![0x00u8, 0x00u8]),
{
    let r = reset_actions();
    let sw = software_reset_actions();
    let e = command_with_data_actions(DATA_ENTRY_MODE, seq![0x03u8]);
    let u = command_with_data_actions(DISPLAY_UPDATE_CONTROL_1, seq![0x40u8, 0x00u8]);
    let b = command_with_data_actions(WRITE_BORDER, seq![0x05u8]);
    let t = command_with_data_actions(TEMP_CONTROL, seq![0x80u8]);
    let w = full_window_actions();
    let c = ram_address_actions(0, 0);
    assert(init_actions().take(7) =~= r);
    lemma_reset_on_wire(dc);
    lemma_dc_command(SW_RESET, dc);
    lemma_dc_silent(seq![BusAction::PanelWaitBusy], false);
    assert(sw =~= command_actions(SW_RESET) + seq![BusAction::PanelWaitBusy]);
    lemma_dc_bytes_append(command_actions(SW_RESET), seq![BusAction::PanelWaitBusy], dc);
    lemma_dc_command_with_data(DATA_ENTRY_MODE, seq![0x03u8], false);
    lemma_dc_command_with_data(DISPLAY_UPDATE_CONTROL_1, seq![0x40u8, 0x00u8], true);
    lemma_dc_command_with_data(WRITE_BORDER, seq![0x05u8], true);
    lemma_dc_command_with_data(TEMP_CONTROL, seq![0x80u8], true);
    lemma_dc_full_window_and_origin(true);
    lemma_dc_bytes_append(r, sw, dc);
    lemma_dc_bytes_append(r + sw, e, dc);
    lemma_dc_bytes_append(r + sw + e, u, dc);
    lemma_dc_bytes_append(r + sw + e + u, b, dc);
    lemma_dc_bytes_append(r + sw + e + u + b, t, dc);
    lemma_dc_bytes_append(r + sw + e + u + b + t, w, dc);
    lemma_dc_bytes_append(r + sw + e + u + b + t + w, c, dc);
    assert(init_actions() == r + sw + e + u + b + t + w + c);
    assert(dc_bytes(init_actions(), dc)
        =~= opcode_byte(0x12)
            + opcode_byte(0x11) + data_bytes(seq![0x03u8])
            + opcode_byte(0x21) + data_bytes(seq![0x40u8, 0x00u8])
            + opcode_byte(0x3C) + data_bytes(seq![0x05u8])
            + opcode_byte(0x18) + data_bytes(seq![0x80u8])
            + opcode_byte(0x44) + data_bytes(seq![0x00u8, 0x31u8])
            + opcode_byte(0x45) + data_bytes(seq![0x00u8, 0x00u8, 0x2Bu8, 0x01u8])
            + opcode_byte(0x4E) + data_bytes(seq![0x00u8])
            + opcode_byte(0x4F) + data_bytes(seq![0x00u8, 0x00u8]));
}

/// Rows go out as two bytes, low first, that add back up to the row; X
/// goes out as the byte column `x / 8`.
pub proof fn lemma_address_bytes(x: u16, y: u16)
    ensures
        (y as u8) as int + 256 * ((y >> 8) as u8) as int == y as int,
        (x >> 3) as int == x as int / 8,
{
    assert((y as u8) as u16 + 256u16 * ((y >> 8) as u8) as u16 == y) by (bit_vector);
    assert(x >> 3 == x / 8) by (bit_vector);
}

/// Encoder for SSD1683 commands.
pub struct Ssd1683 {}

impl Ssd1683 {
    /// Constructs the encoder. Sends nothing: run [`Self::init`] first.
    pub fn new() -> (s: Self) {
        Ssd1683 {}
    }

    fn single(op: BusOp) -> (ops: Vec<BusOp>)
        ensures
            ops.deep_view() == seq![op.deep_view()],
    {
        let mut ops: Vec<BusOp> = Vec::new();
        ops.push(op);
        assert(ops.deep_view() =~= seq![op.deep_view()]);
        ops
    }

    /// Pulls DC low and sends one opcode byte.
    pub fn command(&self, cmd: u8) -> (ops: Vec<BusOp>)
        ensures
            ops.deep_view() == command_actions(cmd),
    {
        let mut ops = Self::single(BusOp::PanelDataCommand(false));
        let w = vec![cmd];
        assert(w@ =~= seq![cmd]);
        append_ops(&mut ops, Self::single(BusOp::PanelWrite(w)));
        assert(ops.deep_view() =~= command_actions(cmd));
        ops
    }

    /// Sends one opcode byte with no data.
    pub fn command_only(&self, opcode: u8) -> (ops: Vec<BusOp>)
        ensures
            ops.deep_view() == command_actions(opcode),
    {
        self.command(opcode)
    }

    /// Pulls DC high and sends the data bytes in one SPI write.
    pub fn data(&self, bytes: &[u8]) -> (ops: Vec<BusOp>)
        ensures
            ops.deep_view() == data_actions(bytes@),
    {
        let mut ops = Self::single(BusOp::PanelDataCommand(true));
        append_ops(&mut ops, Self::single(BusOp::PanelWrite(vstd::slice::slice_to_vec(bytes))));
        assert(ops.deep_view() =~= data_actions(bytes@));
        ops
    }

    /// `count` copies of `byte` as data, in one SPI write.
    fn data_repeat(&self, byte: u8, count: usize) -> (ops: Vec<BusOp>)
        ensures
            ops.deep_view() == data_actions(repeated(byte, count as nat)),
    {
        let mut ops = Self::single(BusOp::PanelDataCommand(true));
        append_ops(&mut ops, Self::single(BusOp::PanelWriteRepeat(byte, count)));
        assert(ops.deep_view() =~= data_actions(repeated(byte, count as nat)));
        ops
    }

    /// An opcode followed by its data bytes: the shape of nearly every command.
    pub fn command_with_data(&self, opcode: u8, data: &[u8]) -> (ops: Vec<BusOp>)
        ensures
            ops.deep_view() == command_with_data_actions(opcode, data@),
    {
        let mut ops = self.command(opcode);
        append_ops(&mut ops, self.data(data));
        ops
    }

    /// Hardware reset: RST high, low, high with 10 ms holds, then wait for
    /// the chip's boot to release BUSY.
    pub fn reset(&self) -> (ops: Vec<BusOp>)
        ensures
            ops.deep_view() == reset_actions(),
    {
        let mut ops: Vec<BusOp> = Vec::new();
        ops.push(BusOp::PanelReset(true));
        ops.push(BusOp::DelayMs(RESET_HOLD_MS));
        ops.push(BusOp::PanelReset(false));
        ops.push(BusOp::DelayMs(RESET_HOLD_MS));
        ops.push(BusOp::PanelReset(true));
        ops.push(BusOp::DelayMs(RESET_HOLD_MS));
        ops.push(BusOp::PanelWaitBusy);
        assert(ops.deep_view() =~= reset_actions());
        ops
    }

    /// Waits for BUSY to drop.
    pub fn wait_busy(&self) -> (ops: Vec<BusOp>)
        ensures
            ops.deep_view() == seq![BusAction::PanelWaitBusy],
    {
        Self::single(BusOp::PanelWaitBusy)
    }

    /// Software reset (opcode `0x12`), then wait for BUSY: resets the
    /// command registers, keeps the OTP waveform tables.
    pub fn software_reset(&self) -> (ops: Vec<BusOp>)
        ensures
            ops.deep_view() == software_reset_actions(),
    {
        let mut ops = self.command_only(SW_RESET);
        append_ops(&mut ops, self.wait_busy());
        assert(ops.deep_view() =~= software_reset_actions());
        ops
    }

    fn command_with_byte(&self, opcode: u8, b: u8) -> (ops: Vec<BusOp>)
        ensures
            ops.deep_view() == command_with_data_actions(opcode, seq![b]),
    {
        let d = [b];
        assert(d@ =~= seq![b]);
        self.command_with_data(opcode, &d)
    }

    /// Opcode `0x11`: how the RAM address counter advances.
    pub fn set_data_entry_mode(&self, mode: DataEntryMode) -> (ops: Vec<BusOp>)
        ensures
            ops.deep_view() == command_with_data_actions(DATA_ENTRY_MODE, seq![mode.byte_spec()]),
    {
        self.command_with_byte(DATA_ENTRY_MODE, mode.byte())
    }

    /// Opcode `0x3C`: the border waveform.
    pub fn set_border_waveform(&self, waveform: BorderWaveform) -> (ops: Vec<BusOp>)
        ensures
            ops.deep_view() == command_with_data_actions(WRITE_BORDER, seq![0x05u8]),
    {
        self.command_with_byte(WRITE_BORDER, waveform.byte())
    }

    /// Opcode `0x18`: the temperature sensor source.
    pub fn set_temperature_source(&self, source: TemperatureSource) -> (ops: Vec<BusOp>)
        ensures
            ops.deep_view() == command_with_data_actions(TEMP_CONTROL, seq![source.byte_spec()]),
    {
        self.command_with_byte(TEMP_CONTROL, source.byte())
    }

    /// Opcodes `0x44`/`0x45`: the rectangle of RAM that later writes fill.
    /// `x1`/`x2` are pixels and go out in byte units; `y1`/`y2` are rows and go
    /// out little-endian. `(0, 0, WIDTH - 1, HEIGHT - 1)` covers the panel.
    pub fn set_ram_window(&self, x1: u16, y1: u16, x2: u16, y2: u16) -> (ops: Vec<BusOp>)
        ensures
            ops.deep_view() == ram_window_actions(x1, y1, x2, y2),
    {
        let xs = [(x1 >> 3) as u8, (x2 >> 3) as u8];
        let ys = [y1 as u8, (y1 >> 8) as u8, y2 as u8, (y2 >> 8) as u8];
        assert(xs@ =~= seq![(x1 >> 3) as u8, (x2 >> 3) as u8]);
        assert(ys@ =~= seq![y1 as u8, (y1 >> 8) as u8, y2 as u8, (y2 >> 8) as u8]);
        let mut ops = self.command_with_data(SET_RAM_X_RANGE, &xs);
        append_ops(&mut ops, self.command_with_data(SET_RAM_Y_RANGE, &ys));
        ops
    }

    /// Opcodes `0x4E`/`0x4F`: the RAM write cursor.
    pub fn set_ram_address(&self, x: u16, y: u16) -> (ops: Vec<BusOp>)
        ensures
            ops.deep_view() == ram_address_actions(x, y),
    {
        let xs = [(x >> 3) as u8];
        let ys = [y as u8, (y >> 8) as u8];
        assert(xs@ =~= seq![(x >> 3) as u8]);
        assert(ys@ =~= seq![y as u8, (y >> 8) as u8]);
        let mut ops = self.command_with_data(SET_RAM_X_COUNTER, &xs);
        append_ops(&mut ops, self.command_with_data(SET_RAM_Y_COUNTER, &ys));
        ops
    }

    /// Opcode `0x24`: the data bytes that follow go to RAM 1 (black/white).
    pub fn start_write_ram1(&self) -> (ops: Vec<BusOp>)
        ensures
            ops.deep_view() == command_actions(WRITE_RAM_BW),
    {
        self.command_only(WRITE_RAM_BW)
    }

    /// Opcode `0x26`: the data bytes that follow go to RAM 2 (red).
    pub fn start_write_ram2(&self) -> (ops: Vec<BusOp>)
        ensures
            ops.deep_view() == command_actions(WRITE_RAM_RED),
    {
        self.command_only(WRITE_RAM_RED)
    }

    /// Data bytes for the RAM selected by the last write-RAM command.
    pub fn write_data(&self, bytes: &[u8]) -> (ops: Vec<BusOp>)
        ensures
            ops.deep_view() == data_actions(bytes@),
    {
        self.data(bytes)
    }

    /// Data bytes for the RAM selected by the last write-RAM command: the
    /// bytes the latest SRAM read returned.
    pub fn write_data_from_last_read(&self) -> (ops: Vec<BusOp>)
        ensures
            ops.deep_view() == seq![BusAction::PanelDataCommand(true), BusAction::PanelWriteLastRead],
    {
        let mut ops = Self::single(BusOp::PanelDataCommand(true));
        append_ops(&mut ops, Self::single(BusOp::PanelWriteLastRead));
        assert(ops.deep_view() =~= seq![BusAction::PanelDataCommand(true), BusAction::PanelWriteLastRead]);
        ops
    }

    /// Full refresh: update sequence `0xF7`, master activate, wait for BUSY.
    pub fn refresh(&self) -> (ops: Vec<BusOp>)
        ensures
            ops.deep_view() == refresh_actions(),
    {
        let mut ops = self.command_with_byte(DISPLAY_UPDATE_CONTROL_2, FULL_REFRESH);
        append_ops(&mut ops, self.command_only(MASTER_ACTIVATE));
        append_ops(&mut ops, self.wait_busy());
        assert(ops.deep_view() =~= refresh_actions());
        ops
    }

    /// Deep sleep mode 1, then 100 ms settle. Only a hardware reset wakes the chip.
    pub fn sleep(&self) -> (ops: Vec<BusOp>)
        ensures
            ops.deep_view() == sleep_actions(),
    {
        let mut ops = self.command_with_byte(DEEP_SLEEP, 0x01);
        append_ops(&mut ops, Self::single(BusOp::DelayMs(SLEEP_SETTLE_MS)));
        assert(ops.deep_view() =~= sleep_actions());
        ops
    }

    /// The init sequence, after which the chip takes RAM writes:
    /// 1. hardware reset;
    /// 2. software reset (opcode `0x12`), then wait for BUSY;
    /// 3. data entry mode = row-major auto-increment (opcode `0x11`);
    /// 4. display update control 1 = `[0x40, 0x00]` (opcode `0x21`), what a
    ///    tri-color refresh needs on this panel;
    /// 5. border waveform = default (opcode `0x3C`);
    /// 6. temperature source = internal sensor (opcode `0x18`);
    /// 7. RAM window = the whole 400x300 panel (opcodes `0x44` and `0x45`);
    /// 8. RAM cursor = `(0, 0)` (opcodes `0x4E` and `0x4F`).
    pub fn init(&self) -> (ops: Vec<BusOp>)
        ensures
            ops.deep_view() == init_actions(),
    {
        let mut ops = self.reset();
        append_ops(&mut ops, self.software_reset());
        append_ops(&mut ops, self.set_data_entry_mode(DataEntryMode::IncrementXIncrementYXMajor));
        let update = [0x40u8, 0x00u8];
        assert(update@ =~= seq![0x40u8, 0x00u8]);
        append_ops(&mut ops, self.command_with_data(DISPLAY_UPDATE_CONTROL_1, &update));
        append_ops(&mut ops, self.set_border_waveform(BorderWaveform::Default));
        append_ops(&mut ops, self.set_temperature_source(TemperatureSource::Internal));
        append_ops(&mut ops, self.set_ram_window(0, 0, WIDTH - 1, HEIGHT - 1));
        append_ops(&mut ops, self.set_ram_address(0, 0));
        ops
    }

    /// `PLANE_LEN` copies of `byte` as panel data, in chunks.
    fn fill_ram(&self, byte: u8) -> (ops: Vec<BusOp>)
        ensures
            ops.deep_view() == repeated_data_actions(byte, 0, PLANE_LEN as nat),
    {
        let mut ops: Vec<BusOp> = Vec::new();
        let mut sent: usize = 0;
        while sent < PLANE_LEN
            invariant
                sent <= PLANE_LEN,
                ops.deep_view() + repeated_data_actions(byte, sent as nat, PLANE_LEN as nat)
                    == repeated_data_actions(byte, 0, PLANE_LEN as nat),
            decreases PLANE_LEN - sent,
        {
            let n = if PLANE_LEN - sent < FLUSH_CHUNK { PLANE_LEN - sent } else { FLUSH_CHUNK };
            let ghost before = ops.deep_view();
            append_ops(&mut ops, self.data_repeat(byte, n));
            assert(n as nat == chunk_len(sent as nat, PLANE_LEN as nat));
            assert(before + repeated_data_actions(byte, sent as nat, PLANE_LEN as nat)
                =~= ops.deep_view() + repeated_data_actions(byte, (sent + n) as nat, PLANE_LEN as nat));
            sent = sent + n;
        }
        assert(repeated_data_actions(byte, sent as nat, PLANE_LEN as nat) =~= Seq::<BusAction>::empty());
        assert(ops.deep_view() =~= ops.deep_view() + Seq::<BusAction>::empty());
        ops
    }

    /// Bypasses the framebuffer: fills RAM 1 with `bw_byte` and RAM 2 with
    /// `red_byte` over the whole panel, then refreshes.
    pub fn flash_test(&self, bw_byte: u8, red_byte: u8) -> (ops: Vec<BusOp>)
        ensures
            ops.deep_view() == flash_test_actions(bw_byte, red_byte),
    {
        let mut ops = self.set_ram_window(0, 0, WIDTH - 1, HEIGHT - 1);
        append_ops(&mut ops, self.set_ram_address(0, 0));
        append_ops(&mut ops, self.start_write_ram1());
        append_ops(&mut ops, self.fill_ram(bw_byte));
        append_ops(&mut ops, self.set_ram_address(0, 0));
        append_ops(&mut ops, self.start_write_ram2());
        append_ops(&mut ops, self.fill_ram(red_byte));
        append_ops(&mut ops, self.refresh());
        ops
    }
}

} // verus!
