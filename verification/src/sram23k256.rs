//! Command encoder for the Microchip 23K256 serial SRAM that holds the
//! badge's framebuffers, and a model of how the chip answers those commands.
//!
//! Datasheet: <https://ww1.microchip.com/downloads/en/devicedoc/22100f.pdf>,
//! instruction set on page 7, table 2-1.
use vstd::prelude::*;
use crate::bus::{BusOp, BusAction, repeated};

verus! {

/// `WRITE`: followed by a 16-bit address and the bytes to store.
pub const WRITE: u8 = 0b0000_0010;
/// `READ`: followed by a 16-bit address; the chip then clocks out bytes.
pub const READ: u8 = 0b0000_0011;
/// `RDSR`: read the status (mode) register.
pub const READ_STATUS: u8 = 0b0000_0101;
/// `WRSR`: write the status (mode) register.
pub const WRITE_STATUS: u8 = 0b0000_0001;
/// Status value for sequential mode: the address counter runs across the
/// whole 32 KiB instead of wrapping inside a 32-byte page.
pub const SEQUENTIAL_MODE: u8 = 0b0100_0000;
/// Capacity of the chip in bytes.
pub const SRAM_SIZE: usize = 32768;

/// High byte of a 16-bit address, as sent first on the wire.
pub open spec fn addr_hi(addr: u16) -> u8 {
    (addr >> 8) as u8
}

/// Low byte of a 16-bit address, as sent second on the wire.
pub open spec fn addr_lo(addr: u16) -> u8 {
    addr as u8
}

/// The three header bytes of a read or write: instruction, then the address big-endian.
pub open spec fn header(instruction: u8, addr: u16) -> Seq<u8> {
    seq![instruction, addr_hi(addr), addr_lo(addr)]
}

/// The address that a header's second and third bytes name.
pub open spec fn header_addr(h: Seq<u8>) -> int {
    h[1] as int * 256 + h[2] as int
}

/// `mem` with `data` stored from `addr` on; bytes that would fall past the end are dropped.
pub open spec fn write_at(mem: Seq<u8>, addr: int, data: Seq<u8>) -> Seq<u8> {
    Seq::new(mem.len(), |i: int| if addr <= i < addr + data.len() { data[i - addr] } else { mem[i] })
}

/// Memory after one SPI write transaction whose bytes on the wire are `wire`.
pub open spec fn write_transaction(mem: Seq<u8>, wire: Seq<u8>) -> Seq<u8> {
    if wire.len() >= 3 && wire[0] == WRITE {
        write_at(mem, header_addr(wire), wire.skip(3))
    } else {
        mem
    }
}

/// Memory after one bus action, in sequential mode. Panel actions leave it alone.
pub open spec fn sram_after(mem: Seq<u8>, a: BusAction) -> Seq<u8> {
    match a {
        BusAction::SramWrite(wire) => write_transaction(mem, wire),
        BusAction::SramWriteThen(h, d) => write_transaction(mem, h + d),
        _ => mem,
    }
}

/// The bytes that one bus action reads back from the memory.
pub open spec fn sram_read(mem: Seq<u8>, a: BusAction) -> Seq<u8> {
    match a {
        BusAction::SramWriteThenRead(h, n) => if h.len() == 3 && h[0] == READ {
            Seq::new(n, |i: int| mem[header_addr(h) + i])
        } else {
            Seq::empty()
        },
        _ => Seq::empty(),
    }
}

/// Memory after running `acts` in order.
pub open spec fn sram_run(mem: Seq<u8>, acts: Seq<BusAction>) -> Seq<u8>
    decreases acts.len(),
{
    if acts.len() == 0 {
        mem
    } else {
        sram_run(sram_after(mem, acts[0]), acts.drop_first())
    }
}

/// All the bytes read while running `acts` in order, concatenated.
pub open spec fn sram_reads(mem: Seq<u8>, acts: Seq<BusAction>) -> Seq<u8>
    decreases acts.len(),
{
    if acts.len() == 0 {
        Seq::empty()
    } else {
        sram_read(mem, acts[0]) + sram_reads(sram_after(mem, acts[0]), acts.drop_first())
    }
}

pub open spec fn write_byte_actions(addr: u16, val: u8) -> Seq<BusAction> {
    seq![BusAction::SramWrite(header(WRITE, addr).push(val))]
}

pub open spec fn read_byte_actions(addr: u16) -> Seq<BusAction> {
    seq![BusAction::SramWriteThenRead(header(READ, addr), 1)]
}

pub open spec fn write_bulk_actions(addr: u16, data: Seq<u8>) -> Seq<BusAction> {
    seq![BusAction::SramWriteThen(header(WRITE, addr), data)]
}

pub open spec fn read_bulk_actions(addr: u16, count: nat) -> Seq<BusAction> {
    seq![BusAction::SramWriteThenRead(header(READ, addr), count)]
}

/// Running a one-action program.
pub proof fn lemma_sram_single(mem: Seq<u8>, a: BusAction)
    ensures
        sram_run(mem, seq![a]) == sram_after(mem, a),
        sram_reads(mem, seq![a]) == sram_read(mem, a),
{
    let s = seq![a];
    assert(s.drop_first() =~= Seq::<BusAction>::empty());
    assert(sram_run(sram_after(mem, a), s.drop_first()) == sram_after(mem, a));
    assert(sram_reads(sram_after(mem, a), s.drop_first()) == Seq::<u8>::empty());
    assert(sram_read(mem, a) + Seq::<u8>::empty() =~= sram_read(mem, a));
}

/// The address bytes put on the wire name the address they came from.
pub proof fn lemma_header_addr(instruction: u8, addr: u16)
    ensures
        header_addr(header(instruction, addr)) == addr as int,
        header(instruction, addr).len() == 3,
        header(instruction, addr)[0] == instruction,
{
    let hi = addr_hi(addr);
    let lo = addr_lo(addr);
    assert((((addr >> 8) as u8) as u16) * 256u16 + ((addr as u8) as u16) == addr) by (bit_vector);
}

/// Running two programs one after the other.
pub proof fn lemma_sram_run_append(mem: Seq<u8>, a: Seq<BusAction>, b: Seq<BusAction>)
    ensures
        sram_run(mem, a + b) == sram_run(sram_run(mem, a), b),
        sram_reads(mem, a + b) == sram_reads(mem, a) + sram_reads(sram_run(mem, a), b),
    decreases a.len(),
{
    if a.len() == 0 {
        assert(a + b =~= b);
        assert(sram_reads(mem, a) + sram_reads(sram_run(mem, a), b) =~= sram_reads(mem, b));
    } else {
        assert((a + b).drop_first() =~= a.drop_first() + b);
        assert((a + b)[0] == a[0]);
        lemma_sram_run_append(sram_after(mem, a[0]), a.drop_first(), b);
        assert(sram_reads(mem, a + b) =~= sram_reads(mem, a) + sram_reads(sram_run(mem, a), b));
    }
}

/// A single byte write stores the byte at its address.
pub proof fn lemma_write_byte(mem: Seq<u8>, addr: u16, val: u8)
    requires
        addr < mem.len(),
    ensures
        sram_run(mem, write_byte_actions(addr, val)) == mem.update(addr as int, val),
        sram_reads(mem, write_byte_actions(addr, val)) == Seq::<u8>::empty(),
{
    lemma_header_addr(WRITE, addr);
    let acts = write_byte_actions(addr, val);
    let wire = header(WRITE, addr).push(val);
    lemma_sram_single(mem, BusAction::SramWrite(wire));
    assert(wire.skip(3) =~= seq![val]);
    assert(header_addr(wire) == header_addr(header(WRITE, addr)));
    assert(sram_run(mem, acts) =~= mem.update(addr as int, val));
    assert(sram_reads(mem, acts) =~= Seq::<u8>::empty());
}

/// A single byte read returns the byte at its address and changes nothing.
pub proof fn lemma_read_byte(mem: Seq<u8>, addr: u16)
    requires
        addr < mem.len(),
    ensures
        sram_run(mem, read_byte_actions(addr)) == mem,
        sram_reads(mem, read_byte_actions(addr)) == seq![mem[addr as int]],
{
    lemma_header_addr(READ, addr);
    let acts = read_byte_actions(addr);
    lemma_sram_single(mem, acts[0]);
    assert(sram_reads(mem, acts) =~= seq![mem[addr as int]]);
}

/// What a read gives back of a write: reading `data.len()` bytes from where
/// `data` was just written returns `data`.
pub proof fn lemma_bulk_write_then_read(mem: Seq<u8>, addr: u16, data: Seq<u8>)
    requires
        addr + data.len() <= mem.len(),
    ensures
        sram_reads(sram_run(mem, write_bulk_actions(addr, data)), read_bulk_actions(addr, data.len())) == data,
{
    lemma_header_addr(WRITE, addr);
    lemma_header_addr(READ, addr);
    let w = write_bulk_actions(addr, data);
    let r = read_bulk_actions(addr, data.len());
    lemma_sram_single(mem, w[0]);
    let wire = header(WRITE, addr) + data;
    assert(wire.skip(3) =~= data);
    assert(header_addr(wire) == header_addr(header(WRITE, addr)));
    let mem1 = sram_run(mem, w);
    assert(mem1 == write_at(mem, addr as int, data));
    lemma_sram_single(mem1, r[0]);
    assert(sram_reads(mem1, r) =~= data);
}

/// Encoder for 23K256 commands.
///
/// Each method returns the SPI traffic that performs the command; chip select
/// framing is the SPI device's business.
pub struct Sram23k256 {}

impl Sram23k256 {
    pub fn new() -> (s: Self) {
        Sram23k256 {}
    }

    /// Puts the chip in sequential mode; needed before bulk reads and writes.
    pub fn set_sequential_mode(&self) -> (ops: Vec<BusOp>)
        ensures
            ops.deep_view() == seq![BusAction::SramWrite(seq![WRITE_STATUS, SEQUENTIAL_MODE])],
    {
        let mut ops: Vec<BusOp> = Vec::new();
        ops.push(BusOp::SramWrite(vec![WRITE_STATUS, SEQUENTIAL_MODE]));
        assert(ops.deep_view() =~= seq![BusAction::SramWrite(seq![WRITE_STATUS, SEQUENTIAL_MODE])]);
        ops
    }

    fn header_bytes(instruction: u8, addr: u16) -> (h: Vec<u8>)
        ensures
            h@ == header(instruction, addr),
    {
        let h = vec![instruction, (addr >> 8) as u8, addr as u8];
        assert(h@ =~= header(instruction, addr));
        h
    }

    /// Stores one byte.
    pub fn write_byte(&self, addr: u16, val: u8) -> (ops: Vec<BusOp>)
        ensures
            ops.deep_view() == write_byte_actions(addr, val),
    {
        let mut wire = Self::header_bytes(WRITE, addr);
        wire.push(val);
        let mut ops: Vec<BusOp> = Vec::new();
        ops.push(BusOp::SramWrite(wire));
        assert(ops.deep_view() =~= write_byte_actions(addr, val));
        ops
    }

    /// Reads one byte; the byte is the one read result of the operation.
    pub fn read_byte(&self, addr: u16) -> (ops: Vec<BusOp>)
        ensures
            ops.deep_view() == read_byte_actions(addr),
    {
        let mut ops: Vec<BusOp> = Vec::new();
        ops.push(BusOp::SramWriteThenRead(Self::header_bytes(READ, addr), 1));
        assert(ops.deep_view() =~= read_byte_actions(addr));
        ops
    }

    /// Stores `data` from `addr` on, in one transaction.
    pub fn write_bulk(&self, addr: u16, data: &[u8]) -> (ops: Vec<BusOp>)
        ensures
            ops.deep_view() == write_bulk_actions(addr, data@),
    {
        let mut ops: Vec<BusOp> = Vec::new();
        ops.push(BusOp::SramWriteThen(Self::header_bytes(WRITE, addr), vstd::slice::slice_to_vec(data)));
        assert(ops.deep_view() =~= write_bulk_actions(addr, data@));
        ops
    }

    /// Stores `count` copies of `byte` from `addr` on, in one transaction.
    pub fn write_repeat(&self, addr: u16, byte: u8, count: usize) -> (ops: Vec<BusOp>)
        ensures
            ops.deep_view() == write_bulk_actions(addr, repeated(byte, count as nat)),
    {
        let mut ops: Vec<BusOp> = Vec::new();
        ops.push(BusOp::SramWriteThenRepeat(Self::header_bytes(WRITE, addr), byte, count));
        assert(ops.deep_view() =~= write_bulk_actions(addr, repeated(byte, count as nat)));
        ops
    }

    /// Reads `count` bytes from `addr` on, in one transaction.
    pub fn read_bulk(&self, addr: u16, count: usize) -> (ops: Vec<BusOp>)
        ensures
            ops.deep_view() == read_bulk_actions(addr, count as nat),
    {
        let mut ops: Vec<BusOp> = Vec::new();
        ops.push(BusOp::SramWriteThenRead(Self::header_bytes(READ, addr), count));
        assert(ops.deep_view() =~= read_bulk_actions(addr, count as nat));
        ops
    }
}

} // verus!
