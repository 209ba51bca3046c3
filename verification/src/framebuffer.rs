//! Framebuffer geometry shared by the SRAM-backed displays: where a pixel's
//! bit lives, and the chunked traffic that fills a plane or streams it to
//! the panel.
//!
//! A plane is `WIDTH x HEIGHT` bits, row-major, eight horizontal pixels per
//! byte with the leftmost pixel in the most significant bit: exactly the
//! layout of the SSD1683's RAM with row-major data entry.
use vstd::prelude::*;
use crate::bus::{BusOp, BusAction, append_ops, repeated};
use crate::ssd1683::{Ssd1683, WIDTH, HEIGHT, PLANE_LEN, FLUSH_CHUNK, chunk_len};
use crate::sram23k256::{
    Sram23k256, write_bulk_actions, read_bulk_actions, sram_run, sram_reads, sram_after, sram_read,
    header, header_addr, lemma_header_addr, lemma_sram_run_append, lemma_sram_single, READ, WRITE,
};

verus! {

/// Bytes per framebuffer row.
pub const BYTES_PER_ROW: u16 = 50;

/// Byte offset of pixel `(x, y)` inside a plane, if it is on the panel.
pub open spec fn pixel_offset_spec(x: i32, y: i32) -> Option<u16> {
    if x < 0 || y < 0 || x >= WIDTH as i32 || y >= HEIGHT as i32 {
        None
    } else {
        Some((y * BYTES_PER_ROW + x / 8) as u16)
    }
}

/// Bit number (0 = least significant) of column `x` inside its byte.
pub open spec fn pixel_bit(x: i32) -> u8 {
    (7 - x % 8) as u8
}

/// The one-bit mask of column `x` inside its byte.
pub open spec fn pixel_mask(x: i32) -> u8 {
    1u8 << pixel_bit(x)
}

/// Byte offset of pixel `(x, y)` inside a plane; `None` off the panel.
pub fn pixel_offset(x: i32, y: i32) -> (o: Option<u16>)
    ensures
        o == pixel_offset_spec(x, y),
        o matches Some(off) ==> off < PLANE_LEN,
{
    if x < 0 || y < 0 || x >= WIDTH as i32 || y >= HEIGHT as i32 {
        return None;
    }
    let xu = x as u16;
    assert(xu >> 3 == xu / 8) by (bit_vector);
    Some(y as u16 * BYTES_PER_ROW + (xu >> 3))
}

/// The one-bit mask of column `x` inside its byte.
pub fn pixel_mask_of(x: i32) -> (m: u8)
    requires
        0 <= x < WIDTH,
    ensures
        m == pixel_mask(x),
{
    let xu = x as u16;
    assert(xu & 7 == xu % 8) by (bit_vector);
    let bit = 7 - (xu & 7) as u8;
    1u8 << bit
}

/// Within one byte, setting or clearing the bit of column `x` changes that
/// bit to the requested value and keeps the other seven.
pub proof fn lemma_mask_bit(b: u8, k: u8, j: u8, set_bit: bool)
    requires
        k < 8,
        j < 8,
    ensures
        ((if set_bit { b | (1u8 << k) } else { b & !(1u8 << k) }) >> k) & 1 == (if set_bit { 1u8 } else { 0u8 }),
        j != k ==> ((if set_bit { b | (1u8 << k) } else { b & !(1u8 << k) }) >> j) & 1 == (b >> j) & 1,
{
    if set_bit {
        assert(k < 8 ==> ((b | (1u8 << k)) >> k) & 1 == 1) by (bit_vector);
        assert(k < 8 && j < 8 && j != k ==> ((b | (1u8 << k)) >> j) & 1 == (b >> j) & 1) by (bit_vector);
    } else {
        assert(k < 8 ==> ((b & !(1u8 << k)) >> k) & 1 == 0) by (bit_vector);
        assert(k < 8 && j < 8 && j != k ==> ((b & !(1u8 << k)) >> j) & 1 == (b >> j) & 1) by (bit_vector);
    }
}

/// Two pixels share a byte and a bit only if they are the same pixel.
pub proof fn lemma_pixel_position_unique(x1: i32, y1: i32, x2: i32, y2: i32)
    requires
        pixel_offset_spec(x1, y1) is Some,
        pixel_offset_spec(x2, y2) is Some,
        pixel_offset_spec(x1, y1) == pixel_offset_spec(x2, y2),
        pixel_bit(x1) == pixel_bit(x2),
    ensures
        x1 == x2 && y1 == y2,
{
}

/// The traffic that stores `PLANE_LEN - written` copies of `fill` from
/// `base + written` on, in chunks of at most [`FLUSH_CHUNK`] bytes.
pub open spec fn fill_plane_actions(base: u16, fill: u8, written: nat) -> Seq<BusAction>
    decreases PLANE_LEN - written,
{
    if written >= PLANE_LEN {
        Seq::empty()
    } else {
        write_bulk_actions((base + written) as u16, repeated(fill, chunk_len(written, PLANE_LEN as nat)))
            + fill_plane_actions(base, fill, written + chunk_len(written, PLANE_LEN as nat))
    }
}

/// The traffic that reads a plane from `base + sent` on out of SRAM in
/// chunks and sends each chunk to the panel as data.
pub open spec fn stream_plane_actions(base: u16, sent: nat) -> Seq<BusAction>
    decreases PLANE_LEN - sent,
{
    if sent >= PLANE_LEN {
        Seq::empty()
    } else {
        read_bulk_actions((base + sent) as u16, chunk_len(sent, PLANE_LEN as nat))
            + seq![BusAction::PanelDataCommand(true), BusAction::PanelWriteLastRead]
            + stream_plane_actions(base, sent + chunk_len(sent, PLANE_LEN as nat))
    }
}

/// The bytes the panel receives when `acts` run against SRAM contents
/// `mem`, where `last` holds the bytes of the latest SRAM read.
pub open spec fn panel_received(mem: Seq<u8>, acts: Seq<BusAction>, last: Seq<u8>) -> Seq<u8>
    decreases acts.len(),
{
    if acts.len() == 0 {
        Seq::empty()
    } else {
        let a = acts[0];
        let next_last = match a {
            BusAction::SramWriteThenRead(_, _) => sram_read(mem, a),
            _ => last,
        };
        let sent = match a {
            BusAction::PanelWrite(b) => b,
            BusAction::PanelWriteLastRead => last,
            _ => Seq::<u8>::empty(),
        };
        sent + panel_received(sram_after(mem, a), acts.drop_first(), next_last)
    }
}

/// The bytes of the latest SRAM read after running `acts`.
pub open spec fn last_read_after(mem: Seq<u8>, acts: Seq<BusAction>, last: Seq<u8>) -> Seq<u8>
    decreases acts.len(),
{
    if acts.len() == 0 {
        last
    } else {
        let a = acts[0];
        let next_last = match a {
            BusAction::SramWriteThenRead(_, _) => sram_read(mem, a),
            _ => last,
        };
        last_read_after(sram_after(mem, a), acts.drop_first(), next_last)
    }
}

/// What the panel receives from two programs run one after the other.
pub proof fn lemma_panel_received_append(mem: Seq<u8>, a: Seq<BusAction>, b: Seq<BusAction>, last: Seq<u8>)
    ensures
        panel_received(mem, a + b, last) == panel_received(mem, a, last)
            + panel_received(sram_run(mem, a), b, last_read_after(mem, a, last)),
    decreases a.len(),
{
    if a.len() == 0 {
        assert(a + b =~= b);
        assert(panel_received(mem, a, last) + panel_received(mem, b, last) =~= panel_received(mem, b, last));
    } else {
        let a0 = a[0];
        let next_last = match a0 {
            BusAction::SramWriteThenRead(_, _) => sram_read(mem, a0),
            _ => last,
        };
        assert((a + b).drop_first() =~= a.drop_first() + b);
        assert((a + b)[0] == a0);
        lemma_panel_received_append(sram_after(mem, a0), a.drop_first(), b, next_last);
        assert(panel_received(mem, a + b, last) =~= panel_received(mem, a, last)
            + panel_received(sram_run(mem, a), b, last_read_after(mem, a, last)));
    }
}

/// A program of DC levels and plain panel writes: the panel receives exactly
/// the written bytes, and SRAM is not touched.
pub proof fn lemma_panel_only(mem: Seq<u8>, acts: Seq<BusAction>, last: Seq<u8>)
    requires
        forall|i: int| 0 <= i < acts.len() ==> (#[trigger] acts[i] is PanelDataCommand || acts[i] is PanelWrite),
    ensures
        panel_received(mem, acts, last) == crate::ssd1683::panel_bytes(acts),
        sram_run(mem, acts) == mem,
        last_read_after(mem, acts, last) == last,
    decreases acts.len(),
{
    if acts.len() > 0 {
        assert forall|i: int| 0 <= i < acts.drop_first().len() implies (#[trigger] acts.drop_first()[i] is PanelDataCommand || acts.drop_first()[i] is PanelWrite) by {
            assert(acts.drop_first()[i] == acts[i + 1]);
        }
        assert(acts[0] is PanelDataCommand || acts[0] is PanelWrite);
        lemma_panel_only(mem, acts.drop_first(), last);
    }
}

/// A program of plain SRAM writes sends nothing to the panel and reads nothing.
pub proof fn lemma_sram_writes_only(mem: Seq<u8>, acts: Seq<BusAction>, last: Seq<u8>)
    requires
        forall|i: int| 0 <= i < acts.len() ==> #[trigger] acts[i] is SramWrite,
    ensures
        panel_received(mem, acts, last) == Seq::<u8>::empty(),
        last_read_after(mem, acts, last) == last,
    decreases acts.len(),
{
    if acts.len() > 0 {
        assert forall|i: int| 0 <= i < acts.drop_first().len() implies #[trigger] acts.drop_first()[i] is SramWrite by {
            assert(acts.drop_first()[i] == acts[i + 1]);
        }
        assert(acts[0] is SramWrite);
        lemma_sram_writes_only(sram_after(mem, acts[0]), acts.drop_first(), last);
        assert(panel_received(mem, acts, last) =~= Seq::<u8>::empty());
    }
}

/// `mem` with bytes `[lo, hi)` replaced by `fill`.
pub open spec fn filled(mem: Seq<u8>, lo: int, hi: int, fill: u8) -> Seq<u8> {
    Seq::new(mem.len(), |i: int| if lo <= i < hi { fill } else { mem[i] })
}

/// Filling a plane stores the fill byte over exactly the plane's bytes.
pub proof fn lemma_fill_plane(mem: Seq<u8>, base: u16, fill: u8, written: nat)
    requires
        base + PLANE_LEN <= mem.len(),
        base + PLANE_LEN <= u16::MAX,
        written <= PLANE_LEN,
    ensures
        sram_run(mem, fill_plane_actions(base, fill, written)) == filled(mem, base + written, base + PLANE_LEN, fill),
        sram_reads(mem, fill_plane_actions(base, fill, written)) == Seq::<u8>::empty(),
    decreases PLANE_LEN - written,
{
    if written >= PLANE_LEN {
        assert(filled(mem, base + written, base + PLANE_LEN, fill) =~= mem);
    } else {
        let n = chunk_len(written, PLANE_LEN as nat);
        let addr = (base + written) as u16;
        let head = write_bulk_actions(addr, repeated(fill, n));
        let rest = fill_plane_actions(base, fill, written + n);
        lemma_sram_run_append(mem, head, rest);
        lemma_sram_single(mem, head[0]);
        lemma_header_addr(WRITE, addr);
        let wire = header(WRITE, addr) + repeated(fill, n);
        assert(wire.skip(3) =~= repeated(fill, n));
        assert(header_addr(wire) == header_addr(header(WRITE, addr)));
        let mem1 = sram_run(mem, head);
        assert(mem1 =~= filled(mem, base + written, base + written + n, fill));
        lemma_fill_plane(mem1, base, fill, written + n);
        assert(filled(mem1, base + written + n, base + PLANE_LEN, fill)
            =~= filled(mem, base + written, base + PLANE_LEN, fill));
        assert(sram_reads(mem, fill_plane_actions(base, fill, written)) =~= Seq::<u8>::empty());
    }
}

/// Streaming a plane sends the panel exactly the plane's bytes, in order,
/// and leaves SRAM as it was.
pub proof fn lemma_stream_plane(mem: Seq<u8>, base: u16, sent: nat, last: Seq<u8>)
    requires
        base + PLANE_LEN <= mem.len(),
        base + PLANE_LEN <= u16::MAX,
        sent <= PLANE_LEN,
    ensures
        panel_received(mem, stream_plane_actions(base, sent), last) == mem.subrange(base + sent, base + PLANE_LEN),
        sram_run(mem, stream_plane_actions(base, sent)) == mem,
    decreases PLANE_LEN - sent,
{
    if sent >= PLANE_LEN {
        assert(mem.subrange(base + sent, base + PLANE_LEN) =~= Seq::<u8>::empty());
    } else {
        let n = chunk_len(sent, PLANE_LEN as nat);
        let addr = (base + sent) as u16;
        let acts = stream_plane_actions(base, sent);
        let rd = BusAction::SramWriteThenRead(header(READ, addr), n);
        let rest = stream_plane_actions(base, sent + n);
        lemma_header_addr(READ, addr);
        let chunk = sram_read(mem, rd);
        assert(chunk =~= mem.subrange(base + sent, base + sent + n));
        assert(acts[0] == rd);
        assert(acts.drop_first()[0] == BusAction::PanelDataCommand(true));
        assert(acts.drop_first().drop_first()[0] == BusAction::PanelWriteLastRead);
        assert(acts.drop_first().drop_first().drop_first() =~= rest);
        lemma_stream_plane(mem, base, sent + n, chunk);
        let acts1 = acts.drop_first();
        let acts2 = acts1.drop_first();
        assert(sram_after(mem, rd) == mem);
        assert(sram_after(mem, BusAction::PanelDataCommand(true)) == mem);
        assert(sram_after(mem, BusAction::PanelWriteLastRead) == mem);
        assert(panel_received(mem, acts2, chunk) == chunk + panel_received(mem, rest, chunk));
        assert(panel_received(mem, acts1, chunk) == Seq::<u8>::empty() + panel_received(mem, acts2, chunk));
        assert(panel_received(mem, acts, last) == Seq::<u8>::empty() + panel_received(mem, acts1, chunk));
        assert(panel_received(mem, acts, last) =~= mem.subrange(base + sent, base + PLANE_LEN));
        assert(sram_run(mem, acts2) == sram_run(mem, rest));
        assert(sram_run(mem, acts1) == sram_run(mem, acts2));
        assert(sram_run(mem, acts) == sram_run(mem, acts1));
    }
}

/// The traffic of [`fill_plane_actions`] from the start.
pub fn fill_plane(sram: &Sram23k256, base: u16, fill: u8) -> (ops: Vec<BusOp>)
    requires
        base + PLANE_LEN <= u16::MAX,
    ensures
        ops.deep_view() == fill_plane_actions(base, fill, 0),
{
    let mut ops: Vec<BusOp> = Vec::new();
    let mut written: u16 = 0;
    while (written as usize) < PLANE_LEN
        invariant
            written <= PLANE_LEN,
            base + PLANE_LEN <= u16::MAX,
            ops.deep_view() + fill_plane_actions(base, fill, written as nat)
                == fill_plane_actions(base, fill, 0),
        decreases PLANE_LEN - written,
    {
        let n = if PLANE_LEN - (written as usize) < FLUSH_CHUNK { PLANE_LEN - written as usize } else { FLUSH_CHUNK };
        let ghost before = ops.deep_view();
        append_ops(&mut ops, sram.write_repeat(base + written, fill, n));
        assert(n as nat == chunk_len(written as nat, PLANE_LEN as nat));
        assert(before + fill_plane_actions(base, fill, written as nat)
            =~= ops.deep_view() + fill_plane_actions(base, fill, (written + n) as nat));
        written = written + n as u16;
    }
    assert(ops.deep_view() =~= ops.deep_view() + fill_plane_actions(base, fill, written as nat));
    ops
}

/// The traffic of [`stream_plane_actions`] from the start.
pub fn stream_plane(sram: &Sram23k256, epd: &Ssd1683, base: u16) -> (ops: Vec<BusOp>)
    requires
        base + PLANE_LEN <= u16::MAX,
    ensures
        ops.deep_view() == stream_plane_actions(base, 0),
{
    let mut ops: Vec<BusOp> = Vec::new();
    let mut sent: u16 = 0;
    while (sent as usize) < PLANE_LEN
        invariant
            sent <= PLANE_LEN,
            base + PLANE_LEN <= u16::MAX,
            ops.deep_view() + stream_plane_actions(base, sent as nat)
                == stream_plane_actions(base, 0),
        decreases PLANE_LEN - sent,
    {
        let n = if PLANE_LEN - (sent as usize) < FLUSH_CHUNK { PLANE_LEN - sent as usize } else { FLUSH_CHUNK };
        let ghost before = ops.deep_view();
        append_ops(&mut ops, sram.read_bulk(base + sent, n));
        append_ops(&mut ops, epd.write_data_from_last_read());
        assert(n as nat == chunk_len(sent as nat, PLANE_LEN as nat));
        assert(before + stream_plane_actions(base, sent as nat)
            =~= ops.deep_view() + stream_plane_actions(base, (sent + n) as nat));
        sent = sent + n as u16;
    }
    assert(ops.deep_view() =~= ops.deep_view() + stream_plane_actions(base, sent as nat));
    ops
}

} // verus!
