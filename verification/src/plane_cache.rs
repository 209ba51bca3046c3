//! A one-byte write-back cache in front of one framebuffer plane held in SRAM.
//!
//! Drawing a line touches the same framebuffer byte up to eight times in a
//! row, so the display keeps the byte it last touched and writes it back only
//! when it moves on to another byte, or when it is flushed.
use vstd::prelude::*;
use crate::bus::{BusOp, BusAction, append_ops};
use crate::sram23k256::{
    Sram23k256, write_byte_actions, read_byte_actions, sram_run, sram_reads, lemma_write_byte,
    lemma_read_byte, lemma_sram_run_append,
};

verus! {

/// `b` with the bits of `mask` set (`set_bit`) or cleared.
pub open spec fn modify_byte(b: u8, mask: u8, set_bit: bool) -> u8 {
    if set_bit { b | mask } else { b & !mask }
}

/// The cached byte of one plane.
#[derive(Debug, Clone, Copy, PartialEq, Eq)]
pub struct PlaneCache {
    /// SRAM address of the cached byte, if any.
    pub addr: Option<u16>,
    /// The cached byte.
    pub byte: u8,
    /// Whether `byte` was modified since SRAM last held it at `addr`.
    pub dirty: bool,
}

impl PlaneCache {
    /// An empty cache.
    pub fn new() -> (c: Self)
        ensures
            c.addr is None,
            c.byte == 0,
            !c.dirty,
    {
        PlaneCache { addr: None, byte: 0, dirty: false }
    }

    /// Whether the cache holds the byte at SRAM address `i`.
    pub open spec fn covers(self, i: int) -> bool {
        self.addr matches Some(a) && a as int == i
    }

    /// The SRAM traffic that writes a dirty cached byte back.
    pub open spec fn writeback_actions(self) -> Seq<BusAction> {
        match self.addr {
            Some(a) => if self.dirty { write_byte_actions(a, self.byte) } else { Seq::empty() },
            None => Seq::empty(),
        }
    }

    /// The SRAM traffic needed before the byte at `addr` can be modified:
    /// nothing if it is already cached, else a write-back of the old byte
    /// (if dirty) and a read of the new one.
    pub open spec fn load_actions(self, addr: u16) -> Seq<BusAction> {
        if self.addr == Some(addr) {
            Seq::empty()
        } else {
            self.writeback_actions() + read_byte_actions(addr)
        }
    }

    /// The cache after modifying the byte at `addr`, where `loaded` is what
    /// the load traffic read (ignored if the byte was already cached).
    pub open spec fn touched(self, addr: u16, loaded: u8, mask: u8, set_bit: bool) -> PlaneCache {
        let base = if self.addr == Some(addr) {
            self
        } else {
            PlaneCache { addr: Some(addr), byte: loaded, dirty: false }
        };
        let new = modify_byte(base.byte, mask, set_bit);
        if new != base.byte {
            PlaneCache { addr: base.addr, byte: new, dirty: true }
        } else {
            base
        }
    }

    /// The cache after its write-back went through.
    pub open spec fn cleaned(self) -> PlaneCache {
        PlaneCache { addr: self.addr, byte: self.byte, dirty: false }
    }

    /// The cache agrees with the SRAM contents `mem`: a clean cached byte is
    /// what SRAM holds at its address.
    pub open spec fn coherent(self, mem: Seq<u8>) -> bool {
        match self.addr {
            Some(a) => a < mem.len() && (!self.dirty ==> mem[a as int] == self.byte),
            None => true,
        }
    }

    /// The plane as drawing code sees it: SRAM with the cached byte in place.
    pub open spec fn shown(self, mem: Seq<u8>) -> Seq<u8> {
        match self.addr {
            Some(a) => mem.update(a as int, self.byte),
            None => mem,
        }
    }

    /// Whether the byte at `addr` is cached.
    pub fn holds(&self, addr: u16) -> (r: bool)
        ensures
            r == (self.addr == Some(addr)),
    {
        match self.addr {
            Some(a) => a == addr,
            None => false,
        }
    }

    /// The write-back traffic, see [`Self::writeback_actions`].
    pub fn writeback_ops(&self, sram: &Sram23k256) -> (ops: Vec<BusOp>)
        ensures
            ops.deep_view() == self.writeback_actions(),
    {
        match self.addr {
            Some(a) => if self.dirty {
                sram.write_byte(a, self.byte)
            } else {
                let ops: Vec<BusOp> = Vec::new();
                assert(ops.deep_view() =~= Seq::<BusAction>::empty());
                ops
            },
            None => {
                let ops: Vec<BusOp> = Vec::new();
                assert(ops.deep_view() =~= Seq::<BusAction>::empty());
                ops
            },
        }
    }

    /// The load traffic, see [`Self::load_actions`].
    pub fn load_ops(&self, sram: &Sram23k256, addr: u16) -> (ops: Vec<BusOp>)
        ensures
            ops.deep_view() == self.load_actions(addr),
    {
        if self.holds(addr) {
            let ops: Vec<BusOp> = Vec::new();
            assert(ops.deep_view() =~= Seq::<BusAction>::empty());
            ops
        } else {
            let mut ops = self.writeback_ops(sram);
            append_ops(&mut ops, sram.read_byte(addr));
            ops
        }
    }

    /// The number of operations in [`Self::load_ops`].
    pub fn load_len(&self, addr: u16) -> (n: usize)
        ensures
            n == self.load_actions(addr).len(),
            n <= 2,
    {
        if self.holds(addr) {
            0
        } else {
            match self.addr {
                Some(_) => if self.dirty { 2 } else { 1 },
                None => 1,
            }
        }
    }

    /// The number of operations in [`Self::writeback_ops`].
    pub fn writeback_len(&self) -> (n: usize)
        ensures
            n == self.writeback_actions().len(),
            n <= 1,
    {
        match self.addr {
            Some(_) => if self.dirty { 1 } else { 0 },
            None => 0,
        }
    }

    /// Modifies the byte at `addr` once its load traffic went through.
    pub fn touch(&mut self, addr: u16, loaded: u8, mask: u8, set_bit: bool)
        ensures
            *final(self) == old(self).touched(addr, loaded, mask, set_bit),
    {
        if !self.holds(addr) {
            self.byte = loaded;
            self.addr = Some(addr);
            self.dirty = false;
        }
        let new = if set_bit { self.byte | mask } else { self.byte & !mask };
        if new != self.byte {
            self.byte = new;
            self.dirty = true;
        }
    }

    /// Records that the write-back went through.
    pub fn mark_clean(&mut self)
        ensures
            *final(self) == old(self).cleaned(),
    {
        self.dirty = false;
    }
}

/// Writing back: afterwards SRAM holds what the plane showed, the cache is
/// clean and still coherent, and nothing else in SRAM changed.
pub proof fn lemma_writeback(c: PlaneCache, mem: Seq<u8>)
    requires
        c.coherent(mem),
    ensures
        sram_run(mem, c.writeback_actions()) == c.shown(mem),
        sram_reads(mem, c.writeback_actions()) == Seq::<u8>::empty(),
        c.cleaned().coherent(c.shown(mem)),
        c.cleaned().shown(c.shown(mem)) == c.shown(mem),
        forall|i: int| 0 <= i < mem.len() && !c.covers(i) ==> #[trigger] c.shown(mem)[i] == mem[i],
        c.shown(mem).len() == mem.len(),
{
    match c.addr {
        Some(a) => {
            if c.dirty {
                lemma_write_byte(mem, a, c.byte);
            } else {
                assert(mem.update(a as int, c.byte) =~= mem);
            }
            assert(c.shown(mem).update(a as int, c.byte) =~= c.shown(mem));
        },
        None => {},
    }
}

/// Touching a byte: after the load traffic and [`PlaneCache::touch`], the
/// plane shows the old picture with just the byte at `addr` modified, the
/// cache is coherent with the new SRAM contents, and SRAM changed at most
/// where the cache held its old byte.
pub proof fn lemma_touch(c: PlaneCache, mem: Seq<u8>, addr: u16, mask: u8, set_bit: bool)
    requires
        c.coherent(mem),
        addr < mem.len(),
    ensures
        ({
            let acts = c.load_actions(addr);
            let mem1 = sram_run(mem, acts);
            let loaded = if c.addr == Some(addr) { 0u8 } else { sram_reads(mem, acts)[0] };
            let c1 = c.touched(addr, loaded, mask, set_bit);
            &&& mem1.len() == mem.len()
            &&& c1.coherent(mem1)
            &&& c1.shown(mem1) == c.shown(mem).update(addr as int, modify_byte(c.shown(mem)[addr as int], mask, set_bit))
            &&& sram_reads(mem, acts).len() == (if c.addr == Some(addr) { 0int } else { 1int })
            &&& forall|i: int| 0 <= i < mem.len() && !c.covers(i) ==> #[trigger] mem1[i] == mem[i]
            &&& c1.addr == Some(addr)
        }),
{
    let acts = c.load_actions(addr);
    if c.addr == Some(addr) {
        assert(acts =~= Seq::<BusAction>::empty());
        let c1 = c.touched(addr, 0u8, mask, set_bit);
        assert(c1.shown(mem) =~= c.shown(mem).update(addr as int, modify_byte(c.shown(mem)[addr as int], mask, set_bit)));
    } else {
        lemma_writeback(c, mem);
        let mid = c.shown(mem);
        lemma_sram_run_append(mem, c.writeback_actions(), read_byte_actions(addr));
        lemma_read_byte(mid, addr);
        let mem1 = sram_run(mem, acts);
        assert(mem1 == mid);
        assert(sram_reads(mem, acts) =~= seq![mid[addr as int]]);
        let loaded = mid[addr as int];
        let c1 = c.touched(addr, loaded, mask, set_bit);
        assert(c1.shown(mem1) =~= c.shown(mem).update(addr as int, modify_byte(c.shown(mem)[addr as int], mask, set_bit)));
    }
}

/// A load cut short: whatever prefix of the load traffic went through, the
/// unchanged cache stays coherent, nothing was read, and SRAM changed at
/// most where the cache holds its byte.
pub proof fn lemma_partial_load(c: PlaneCache, mem: Seq<u8>, addr: u16, j: nat)
    requires
        c.coherent(mem),
        j < c.load_actions(addr).len(),
    ensures
        c.coherent(sram_run(mem, c.load_actions(addr).take(j as int))),
        sram_reads(mem, c.load_actions(addr).take(j as int)) == Seq::<u8>::empty(),
        sram_run(mem, c.load_actions(addr).take(j as int)).len() == mem.len(),
        forall|i: int| 0 <= i < mem.len() && !c.covers(i)
            ==> #[trigger] sram_run(mem, c.load_actions(addr).take(j as int))[i] == mem[i],
{
    let acts = c.load_actions(addr);
    let wb = c.writeback_actions();
    assert(c.addr != Some(addr));
    if j == 0 {
        assert(acts.take(0) =~= Seq::<BusAction>::empty());
    } else {
        assert(wb.len() == 1);
        assert(acts.take(j as int) =~= wb);
        lemma_writeback(c, mem);
        if let Some(a) = c.addr {
            assert(c.dirty);
        }
    }
}

} // verus!
