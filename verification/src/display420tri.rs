//! The tri-color framebuffer, held in the 23K256 SRAM on the E-Paper Friend
//! breakout rather than in the MCU's RAM.
//!
//! Two planes of [`PLANE_LEN`] bytes: black/white at [`BLACK_BASE`], red at
//! [`RED_BASE`]. Drawing goes through one [`PlaneCache`] per plane; flushing
//! streams both planes from SRAM into the SSD1683's RAM 1 and RAM 2.
//!
//! Every operation comes in two halves: a method that returns the bus traffic
//! it needs, and a `_done` method that takes the [`BusOutcome`] of running
//! that traffic and updates the caches to match, whether it all went through
//! or stopped at a failure.
use vstd::prelude::*;
use crate::bus::{BusOp, BusAction, BusOutcome, append_ops};
use crate::color::{TriColor, pixel_bits, fill_bytes, encode_pixel, encode_fill, bit_of, lemma_fill_matches_pixel};
use crate::framebuffer::{
    pixel_offset, pixel_offset_spec, pixel_mask, pixel_bit, pixel_mask_of, fill_plane, fill_plane_actions,
    stream_plane, stream_plane_actions, lemma_mask_bit, lemma_pixel_position_unique, filled,
    lemma_fill_plane, lemma_stream_plane, panel_received, last_read_after, lemma_panel_received_append,
    lemma_panel_only, lemma_sram_writes_only,
};
use crate::plane_cache::{PlaneCache, modify_byte, lemma_touch, lemma_writeback, lemma_partial_load};
use crate::sram23k256::{Sram23k256, SRAM_SIZE, sram_run, sram_reads, lemma_sram_run_append};
use crate::ssd1683::{
    Ssd1683, WIDTH, HEIGHT, PLANE_LEN, full_window_actions, ram_address_actions, command_actions,
    panel_bytes,
};
use crate::opcode::{WRITE_RAM_BW, WRITE_RAM_RED};

verus! {

/// SRAM address of the black/white plane.
pub const BLACK_BASE: u16 = 0;
/// SRAM address of the red plane.
pub const RED_BASE: u16 = 15000;

/// SRAM address of plane byte `off` of the black/white plane.
pub open spec fn black_addr(off: u16) -> u16 {
    (BLACK_BASE + off) as u16
}

/// SRAM address of plane byte `off` of the red plane.
pub open spec fn red_addr(off: u16) -> u16 {
    (RED_BASE + off) as u16
}

/// SRAM contents `mem` with pixel `(x, y)` set to `color` in both planes;
/// unchanged if the pixel is off the panel.
pub open spec fn with_pixel(mem: Seq<u8>, x: i32, y: i32, color: TriColor) -> Seq<u8> {
    match pixel_offset_spec(x, y) {
        None => mem,
        Some(off) => {
            let b = black_addr(off) as int;
            let r = red_addr(off) as int;
            mem.update(b, modify_byte(mem[b], pixel_mask(x), pixel_bits(color).0))
               .update(r, modify_byte(mem[r], pixel_mask(x), pixel_bits(color).1))
        },
    }
}

/// A tri-color panel's framebuffer in SRAM.
pub struct Display420Tri {
    pub sram: Sram23k256,
    pub black: PlaneCache,
    pub red: PlaneCache,
}

impl Display420Tri {
    /// Each cache holds a byte of its own plane, if any.
    pub open spec fn wf(self) -> bool {
        &&& (self.black.addr matches Some(a) ==> a < RED_BASE)
        &&& (self.red.addr matches Some(a) ==> RED_BASE <= a < RED_BASE + PLANE_LEN)
        &&& (self.black.addr is None ==> !self.black.dirty)
        &&& (self.red.addr is None ==> !self.red.dirty)
    }

    /// The caches agree with SRAM contents `mem` (see [`PlaneCache::coherent`]).
    pub open spec fn coherent(self, mem: Seq<u8>) -> bool {
        &&& self.wf()
        &&& mem.len() == SRAM_SIZE
        &&& self.black.coherent(mem)
        &&& self.red.coherent(mem)
    }

    /// The framebuffer as drawing sees it: SRAM with both cached bytes in place.
    pub open spec fn shown(self, mem: Seq<u8>) -> Seq<u8> {
        self.red.shown(self.black.shown(mem))
    }

    /// Traffic of [`Self::write_pixel`].
    pub open spec fn pixel_actions(self, x: i32, y: i32) -> Seq<BusAction> {
        match pixel_offset_spec(x, y) {
            None => Seq::empty(),
            Some(off) => self.black.load_actions(black_addr(off)) + self.red.load_actions(red_addr(off)),
        }
    }

    /// The display after [`Self::write_pixel_done`] with this outcome.
    pub open spec fn pixel_committed(self, x: i32, y: i32, color: TriColor, completed: nat, read: Seq<u8>) -> Self {
        match pixel_offset_spec(x, y) {
            None => self,
            Some(off) => {
                let ba = black_addr(off);
                let ra = red_addr(off);
                let bn = self.black.load_actions(ba).len();
                let rn = self.red.load_actions(ra).len();
                let bread: int = if self.black.addr == Some(ba) { 0 } else { 1 };
                let rread: int = if self.red.addr == Some(ra) { 0 } else { 1 };
                let black_ok = completed >= bn && read.len() >= bread;
                let red_ok = black_ok && completed >= bn + rn && read.len() >= bread + rread;
                let bl = if bread == 1 { read[0] } else { 0u8 };
                let rl = if rread == 1 { read[bread] } else { 0u8 };
                Display420Tri {
                    sram: self.sram,
                    black: if black_ok { self.black.touched(ba, bl, pixel_mask(x), pixel_bits(color).0) } else { self.black },
                    red: if red_ok { self.red.touched(ra, rl, pixel_mask(x), pixel_bits(color).1) } else { self.red },
                }
            },
        }
    }

    /// Traffic of [`Self::flush_caches`].
    pub open spec fn flush_actions(self) -> Seq<BusAction> {
        self.black.writeback_actions() + self.red.writeback_actions()
    }

    /// The display after [`Self::flush_caches_done`] when `completed`
    /// operations went through.
    pub open spec fn flush_committed(self, completed: nat) -> Self {
        let bn = self.black.writeback_actions().len();
        let rn = self.red.writeback_actions().len();
        Display420Tri {
            sram: self.sram,
            black: if bn > 0 && completed >= bn { self.black.cleaned() } else { self.black },
            red: if rn > 0 && completed >= bn + rn { self.red.cleaned() } else { self.red },
        }
    }

    /// Traffic of [`Self::clear_to`].
    pub open spec fn clear_actions(self, color: TriColor) -> Seq<BusAction> {
        self.flush_actions() + fill_plane_actions(BLACK_BASE, fill_bytes(color).0, 0)
            + fill_plane_actions(RED_BASE, fill_bytes(color).1, 0)
    }

    /// The display after [`Self::clear_to_done`].
    pub open spec fn clear_committed(self, color: TriColor, completed: nat) -> Self {
        if completed >= self.clear_actions(color).len() {
            Display420Tri {
                sram: self.sram,
                black: PlaneCache { addr: None, byte: 0, dirty: false },
                red: PlaneCache { addr: None, byte: 0, dirty: false },
            }
        } else {
            self.flush_committed(completed)
        }
    }

    /// Traffic of [`Self::flush_to_panel`].
    pub open spec fn panel_actions(self) -> Seq<BusAction> {
        self.flush_actions() + full_window_actions() + ram_address_actions(0, 0)
            + command_actions(WRITE_RAM_BW) + stream_plane_actions(BLACK_BASE, 0)
            + ram_address_actions(0, 0) + command_actions(WRITE_RAM_RED)
            + stream_plane_actions(RED_BASE, 0)
    }

    /// A display over `sram` with empty caches.
    pub fn new(sram: Sram23k256) -> (d: Self)
        ensures
            d.sram == sram,
            d.black == (PlaneCache { addr: None, byte: 0, dirty: false }),
            d.red == (PlaneCache { addr: None, byte: 0, dirty: false }),
            d.wf(),
    {
        Display420Tri { sram, black: PlaneCache::new(), red: PlaneCache::new() }
    }

    /// The traffic that draws pixel `(x, y)`: the load traffic of both planes'
    /// caches. Nothing for a pixel off the panel. The color decides only how
    /// [`Self::write_pixel_done`] modifies the cached bytes.
    pub fn write_pixel(&self, x: i32, y: i32, color: TriColor) -> (ops: Vec<BusOp>)
        ensures
            ops.deep_view() == self.pixel_actions(x, y),
    {
        match pixel_offset(x, y) {
            None => {
                let ops: Vec<BusOp> = Vec::new();
                assert(ops.deep_view() =~= Seq::<BusAction>::empty());
                ops
            },
            Some(off) => {
                let mut ops = self.black.load_ops(&self.sram, BLACK_BASE + off);
                append_ops(&mut ops, self.red.load_ops(&self.sram, RED_BASE + off));
                ops
            },
        }
    }

    /// Updates the caches after running [`Self::write_pixel`]'s traffic: a
    /// plane's byte is modified only if all its load traffic went through.
    pub fn write_pixel_done(&mut self, x: i32, y: i32, color: TriColor, outcome: &BusOutcome)
        ensures
            *final(self) == old(self).pixel_committed(x, y, color, outcome.completed as nat, outcome.read@),
    {
        match pixel_offset(x, y) {
            None => {},
            Some(off) => {
                let ba = BLACK_BASE + off;
                let ra = RED_BASE + off;
                let mask = pixel_mask_of(x);
                let (b_bit, r_bit) = encode_pixel(color);
                let bn = self.black.load_len(ba);
                let rn = self.red.load_len(ra);
                let bread: usize = if self.black.holds(ba) { 0 } else { 1 };
                let rread: usize = if self.red.holds(ra) { 0 } else { 1 };
                let n_read = outcome.read.len();
                let black_ok = outcome.completed >= bn && n_read >= bread;
                let red_ok = black_ok && outcome.completed - bn >= rn && n_read - bread >= rread;
                let bl: u8 = if bread == 1 && n_read >= 1 { outcome.read[0] } else { 0 };
                let rl: u8 = if rread == 1 && n_read > bread { outcome.read[bread] } else { 0 };
                if black_ok {
                    self.black.touch(ba, bl, mask, b_bit);
                }
                if red_ok {
                    self.red.touch(ra, rl, mask, r_bit);
                }
            },
        }
    }

    /// The traffic that writes dirty cached bytes back to SRAM.
    pub fn flush_caches(&self) -> (ops: Vec<BusOp>)
        ensures
            ops.deep_view() == self.flush_actions(),
    {
        let mut ops = self.black.writeback_ops(&self.sram);
        append_ops(&mut ops, self.red.writeback_ops(&self.sram));
        ops
    }

    /// Marks caches clean whose write-back went through.
    pub fn flush_caches_done(&mut self, outcome: &BusOutcome)
        ensures
            *final(self) == old(self).flush_committed(outcome.completed as nat),
    {
        let bn = self.black.writeback_len();
        let rn = self.red.writeback_len();
        if bn > 0 && outcome.completed >= bn {
            self.black.mark_clean();
        }
        if rn > 0 && outcome.completed >= bn + rn {
            self.red.mark_clean();
        }
    }

    /// The traffic that fills the whole framebuffer with `color`: write the
    /// caches back, then fill both planes.
    pub fn clear_to(&self, color: TriColor) -> (ops: Vec<BusOp>)
        ensures
            ops.deep_view() == self.clear_actions(color),
    {
        let (black_fill, red_fill) = encode_fill(color);
        let mut ops = self.flush_caches();
        append_ops(&mut ops, fill_plane(&self.sram, BLACK_BASE, black_fill));
        append_ops(&mut ops, fill_plane(&self.sram, RED_BASE, red_fill));
        ops
    }

    /// Updates the caches after running [`Self::clear_to`]'s traffic: empty
    /// if it all went through, else as far as the write-back got.
    pub fn clear_to_done(&mut self, color: TriColor, outcome: &BusOutcome)
        ensures
            *final(self) == old(self).clear_committed(color, outcome.completed as nat),
    {
        let total = self.flush_caches_len() + 2 * fill_plane_len();
        proof {
            lemma_fill_plane_len(BLACK_BASE, fill_bytes(color).0, 0);
            lemma_fill_plane_len(RED_BASE, fill_bytes(color).1, 0);
        }
        if outcome.completed >= total {
            self.black = PlaneCache::new();
            self.red = PlaneCache::new();
        } else {
            self.flush_caches_done(outcome);
        }
    }

    fn flush_caches_len(&self) -> (n: usize)
        ensures
            n == self.flush_actions().len(),
            n <= 2,
    {
        self.black.writeback_len() + self.red.writeback_len()
    }

    /// The traffic that shows the framebuffer: write the caches back, point
    /// the controller at the whole panel, and stream the black/white plane
    /// into RAM 1 and the red plane into RAM 2. Refreshing is a separate step.
    pub fn flush_to_panel(&self, epd: &Ssd1683) -> (ops: Vec<BusOp>)
        ensures
            ops.deep_view() == self.panel_actions(),
    {
        let mut ops = self.flush_caches();
        append_ops(&mut ops, epd.set_ram_window(0, 0, WIDTH - 1, HEIGHT - 1));
        append_ops(&mut ops, epd.set_ram_address(0, 0));
        append_ops(&mut ops, epd.start_write_ram1());
        append_ops(&mut ops, stream_plane(&self.sram, epd, BLACK_BASE));
        append_ops(&mut ops, epd.set_ram_address(0, 0));
        append_ops(&mut ops, epd.start_write_ram2());
        append_ops(&mut ops, stream_plane(&self.sram, epd, RED_BASE));
        ops
    }

    /// Updates the caches after running [`Self::flush_to_panel`]'s traffic.
    pub fn flush_to_panel_done(&mut self, outcome: &BusOutcome)
        ensures
            *final(self) == old(self).flush_committed(outcome.completed as nat),
    {
        self.flush_caches_done(outcome);
    }
}

/// Drawing a pixel: once its traffic has gone through and the caches are
/// updated, the framebuffer shows the old picture with just that pixel set
/// to `color` in both planes, and the caches stay coherent with SRAM.
#[verifier::rlimit(60)]
pub proof fn lemma_write_pixel(d: Display420Tri, mem: Seq<u8>, x: i32, y: i32, color: TriColor)
    requires
        d.coherent(mem),
    ensures
        ({
            let acts = d.pixel_actions(x, y);
            let mem1 = sram_run(mem, acts);
            let d1 = d.pixel_committed(x, y, color, acts.len(), sram_reads(mem, acts));
            &&& d1.coherent(mem1)
            &&& d1.shown(mem1) == with_pixel(d.shown(mem), x, y, color)
        }),
{
    match pixel_offset_spec(x, y) {
        None => {
            assert(d.pixel_actions(x, y) =~= Seq::<BusAction>::empty());
        },
        Some(off) => {
            let ba = black_addr(off);
            let ra = red_addr(off);
            let mask = pixel_mask(x);
            let bits = pixel_bits(color);
            let bacts = d.black.load_actions(ba);
            let racts = d.red.load_actions(ra);
            let acts = d.pixel_actions(x, y);
            assert(acts == bacts + racts);
            lemma_sram_run_append(mem, bacts, racts);
            lemma_touch(d.black, mem, ba, mask, bits.0);
            let mem_b = sram_run(mem, bacts);
            let bloaded = if d.black.addr == Some(ba) { 0u8 } else { sram_reads(mem, bacts)[0] };
            let black1 = d.black.touched(ba, bloaded, mask, bits.0);
            assert(d.red.coherent(mem_b)) by {
                if let Some(a) = d.red.addr {
                    assert(!d.black.covers(a as int));
                }
            }
            lemma_touch(d.red, mem_b, ra, mask, bits.1);
            let mem1 = sram_run(mem_b, racts);
            let rloaded = if d.red.addr == Some(ra) { 0u8 } else { sram_reads(mem_b, racts)[0] };
            let red1 = d.red.touched(ra, rloaded, mask, bits.1);
            let reads = sram_reads(mem, acts);
            assert(reads == sram_reads(mem, bacts) + sram_reads(mem_b, racts));
            let bread: int = if d.black.addr == Some(ba) { 0 } else { 1 };
            assert(d.black.addr != Some(ba) ==> reads[0] == sram_reads(mem, bacts)[0]);
            assert(d.red.addr != Some(ra) ==> reads[bread] == sram_reads(mem_b, racts)[0]);
            let d1 = d.pixel_committed(x, y, color, acts.len(), reads);
            assert(d1.black == black1);
            assert(d1.red == red1);
            assert(black1.coherent(mem1)) by {
                assert(!d.red.covers(ba as int));
            }
            let s0 = d.black.shown(mem);
            assert(black1.shown(mem_b) == s0.update(ba as int, modify_byte(s0[ba as int], mask, bits.0)));
            let big = d.shown(mem);
            let w = with_pixel(big, x, y, color);
            let rs = d.red.shown(mem_b);
            assert(red1.shown(mem1) == rs.update(ra as int, modify_byte(rs[ra as int], mask, bits.1)));
            assert(red1.byte == modify_byte(rs[ra as int], mask, bits.1)) by {
                assert(red1.shown(mem1)[ra as int] == red1.byte);
            }
            assert(black1.byte == modify_byte(s0[ba as int], mask, bits.0)) by {
                assert(black1.shown(mem_b)[ba as int] == black1.byte);
            }
            assert(rs[ra as int] == big[ra as int]) by {
                assert(!d.black.covers(ra as int));
            }
            assert(big[ba as int] == s0[ba as int]) by {
                assert(!d.red.covers(ba as int));
            }
            assert forall|i: int| 0 <= i < mem.len() implies #[trigger] d1.shown(mem1)[i] == w[i] by {
                if i != ra as int && i != ba as int {
                    assert(red1.shown(mem1)[i] == mem1[i]);
                    assert(black1.shown(mem_b)[i] == mem_b[i]);
                }
            }
            assert(d1.shown(mem1) =~= w);
        },
    }
}

/// Drawing a pixel that fails part way: whichever prefix of its traffic
/// went through, the caches stay coherent with what SRAM then holds.
#[verifier::rlimit(60)]
pub proof fn lemma_write_pixel_interrupted(d: Display420Tri, mem: Seq<u8>, x: i32, y: i32, color: TriColor, k: nat)
    requires
        d.coherent(mem),
        k < d.pixel_actions(x, y).len(),
    ensures
        ({
            let acts = d.pixel_actions(x, y).take(k as int);
            d.pixel_committed(x, y, color, k, sram_reads(mem, acts)).coherent(sram_run(mem, acts))
        }),
{
    let off = pixel_offset_spec(x, y)->Some_0;
    let ba = black_addr(off);
    let ra = red_addr(off);
    let mask = pixel_mask(x);
    let bits = pixel_bits(color);
    let bacts = d.black.load_actions(ba);
    let racts = d.red.load_actions(ra);
    let all = d.pixel_actions(x, y);
    assert(all == bacts + racts);
    let acts = all.take(k as int);
    if k < bacts.len() {
        assert(acts =~= bacts.take(k as int));
        lemma_partial_load(d.black, mem, ba, k);
        let m = sram_run(mem, acts);
        assert(d.red.coherent(m)) by {
            if let Some(a) = d.red.addr {
                assert(!d.black.covers(a as int));
            }
        }
        let d1 = d.pixel_committed(x, y, color, k, sram_reads(mem, acts));
        assert(d1.black == d.black && d1.red == d.red);
    } else {
        let j = (k - bacts.len()) as nat;
        assert(acts =~= bacts + racts.take(j as int));
        lemma_sram_run_append(mem, bacts, racts.take(j as int));
        lemma_touch(d.black, mem, ba, mask, bits.0);
        let mem_b = sram_run(mem, bacts);
        assert(d.red.coherent(mem_b)) by {
            if let Some(a) = d.red.addr {
                assert(!d.black.covers(a as int));
            }
        }
        lemma_partial_load(d.red, mem_b, ra, j);
        let m = sram_run(mem, acts);
        let reads = sram_reads(mem, acts);
        assert(reads =~= sram_reads(mem, bacts));
        let bloaded = if d.black.addr == Some(ba) { 0u8 } else { sram_reads(mem, bacts)[0] };
        let black1 = d.black.touched(ba, bloaded, mask, bits.0);
        let d1 = d.pixel_committed(x, y, color, k, reads);
        assert(d1.black == black1);
        assert(d1.red == d.red);
        assert(black1.coherent(m)) by {
            assert(!d.red.covers(ba as int));
        }
    }
}

/// SRAM contents `mem` with the pixels `pixels` set to `color`, one after
/// the other.
pub open spec fn with_pixels(mem: Seq<u8>, pixels: Seq<(i32, i32)>, color: TriColor) -> Seq<u8>
    decreases pixels.len(),
{
    if pixels.len() == 0 {
        mem
    } else {
        with_pixels(with_pixel(mem, pixels[0].0, pixels[0].1, color), pixels.drop_first(), color)
    }
}

/// The display and SRAM contents after drawing `pixels` in `color`, one
/// pixel at a time, each pixel's traffic going through and its `_done`
/// following it.
pub open spec fn drawn_pixels(d: Display420Tri, mem: Seq<u8>, pixels: Seq<(i32, i32)>, color: TriColor) -> (Display420Tri, Seq<u8>)
    decreases pixels.len(),
{
    if pixels.len() == 0 {
        (d, mem)
    } else {
        let (x, y) = pixels[0];
        let acts = d.pixel_actions(x, y);
        let d1 = d.pixel_committed(x, y, color, acts.len(), sram_reads(mem, acts));
        drawn_pixels(d1, sram_run(mem, acts), pixels.drop_first(), color)
    }
}

/// Drawing a sequence of pixels: the framebuffer then shows the old
/// picture with each of them set to `color` in turn, and the caches stay
/// coherent with SRAM.
pub proof fn lemma_draw_pixels(d: Display420Tri, mem: Seq<u8>, pixels: Seq<(i32, i32)>, color: TriColor)
    requires
        d.coherent(mem),
    ensures
        ({
            let (dn, memn) = drawn_pixels(d, mem, pixels, color);
            &&& dn.coherent(memn)
            &&& dn.shown(memn) == with_pixels(d.shown(mem), pixels, color)
        }),
    decreases pixels.len(),
{
    if pixels.len() > 0 {
        let (x, y) = pixels[0];
        lemma_write_pixel(d, mem, x, y, color);
        let acts = d.pixel_actions(x, y);
        let d1 = d.pixel_committed(x, y, color, acts.len(), sram_reads(mem, acts));
        lemma_draw_pixels(d1, sram_run(mem, acts), pixels.drop_first(), color);
    }
}

/// Drawing a sequence of pixels and then flushing the caches: SRAM then
/// holds the old picture with each pixel set to `color` in turn.
pub proof fn lemma_draw_pixels_then_flush(d: Display420Tri, mem: Seq<u8>, pixels: Seq<(i32, i32)>, color: TriColor)
    requires
        d.coherent(mem),
    ensures
        ({
            let (dn, memn) = drawn_pixels(d, mem, pixels, color);
            sram_run(memn, dn.flush_actions()) == with_pixels(d.shown(mem), pixels, color)
        }),
{
    lemma_draw_pixels(d, mem, pixels, color);
    let (dn, memn) = drawn_pixels(d, mem, pixels, color);
    lemma_flush_caches(dn, memn);
}

/// The (black/white plane, red plane) bits of pixel `(x, y)` in SRAM
/// contents `mem`.
pub open spec fn pixel_at(mem: Seq<u8>, x: i32, y: i32) -> (bool, bool) {
    let off = pixel_offset_spec(x, y)->Some_0;
    (bit_of(mem[black_addr(off) as int], pixel_bit(x)), bit_of(mem[red_addr(off) as int], pixel_bit(x)))
}

/// Reading back a drawn pixel gives its color's bits; every other pixel on
/// the panel keeps its bits.
pub proof fn lemma_pixel_readback(mem: Seq<u8>, x: i32, y: i32, color: TriColor, x2: i32, y2: i32)
    requires
        mem.len() == SRAM_SIZE,
        pixel_offset_spec(x, y) is Some,
        pixel_offset_spec(x2, y2) is Some,
    ensures
        pixel_at(with_pixel(mem, x, y, color), x2, y2)
            == if x2 == x && y2 == y { pixel_bits(color) } else { pixel_at(mem, x2, y2) },
{
    let off = pixel_offset_spec(x, y)->Some_0;
    let off2 = pixel_offset_spec(x2, y2)->Some_0;
    let k = pixel_bit(x);
    let j = pixel_bit(x2);
    let w = with_pixel(mem, x, y, color);
    let b = black_addr(off) as int;
    let r = red_addr(off) as int;
    lemma_mask_bit(mem[b], k, j, pixel_bits(color).0);
    lemma_mask_bit(mem[r], k, j, pixel_bits(color).1);
    if off2 == off && j == k {
        lemma_pixel_position_unique(x, y, x2, y2);
    }
}

/// Reading back after a sequence of pixel writes: a pixel on the panel has
/// the color's bits if it was among them, and keeps its bits otherwise.
pub proof fn lemma_pixels_readback(mem: Seq<u8>, pixels: Seq<(i32, i32)>, color: TriColor, x: i32, y: i32)
    requires
        mem.len() == SRAM_SIZE,
        pixel_offset_spec(x, y) is Some,
    ensures
        with_pixels(mem, pixels, color).len() == SRAM_SIZE,
        pixel_at(with_pixels(mem, pixels, color), x, y)
            == if pixels.contains((x, y)) { pixel_bits(color) } else { pixel_at(mem, x, y) },
    decreases pixels.len(),
{
    if pixels.len() == 0 {
        assert(!pixels.contains((x, y)));
    } else {
        let (x0, y0) = pixels[0];
        let rest = pixels.drop_first();
        let mem1 = with_pixel(mem, x0, y0, color);
        assert(mem1.len() == SRAM_SIZE);
        lemma_pixels_readback(mem1, rest, color, x, y);
        if pixel_offset_spec(x0, y0) is Some {
            lemma_pixel_readback(mem, x0, y0, color, x, y);
        } else {
            assert(x0 != x || y0 != y);
        }
        assert(pixels.contains((x, y)) == (pixels[0] == (x, y) || rest.contains((x, y)))) by {
            if pixels.contains((x, y)) {
                let k = choose|k: int| 0 <= k < pixels.len() && pixels[k] == (x, y);
                if k > 0 {
                    assert(rest[k - 1] == (x, y));
                }
            }
            if rest.contains((x, y)) {
                let k = choose|k: int| 0 <= k < rest.len() && rest[k] == (x, y);
                assert(pixels[k + 1] == (x, y));
            }
        }
    }
}

/// SRAM contents `mem` after the writes `writes`, each a pixel and its
/// color, one after the other.
pub open spec fn with_painted(mem: Seq<u8>, writes: Seq<(i32, i32, TriColor)>) -> Seq<u8>
    decreases writes.len(),
{
    if writes.len() == 0 {
        mem
    } else {
        with_painted(with_pixel(mem, writes[0].0, writes[0].1, writes[0].2), writes.drop_first())
    }
}

/// The color of the last of `writes` that sets pixel `(x, y)`, if any does.
pub open spec fn last_write(writes: Seq<(i32, i32, TriColor)>, x: i32, y: i32) -> Option<TriColor>
    decreases writes.len(),
{
    if writes.len() == 0 {
        None
    } else {
        match last_write(writes.drop_first(), x, y) {
            Some(c) => Some(c),
            None => if writes[0].0 == x && writes[0].1 == y { Some(writes[0].2) } else { None },
        }
    }
}

/// The display and SRAM contents after the writes `writes`, one pixel at a
/// time, each pixel's traffic going through and its `_done` following it.
pub open spec fn painted(d: Display420Tri, mem: Seq<u8>, writes: Seq<(i32, i32, TriColor)>) -> (Display420Tri, Seq<u8>)
    decreases writes.len(),
{
    if writes.len() == 0 {
        (d, mem)
    } else {
        let (x, y, c) = writes[0];
        let acts = d.pixel_actions(x, y);
        let d1 = d.pixel_committed(x, y, c, acts.len(), sram_reads(mem, acts));
        painted(d1, sram_run(mem, acts), writes.drop_first())
    }
}

/// Drawing pixels of several colors: the framebuffer then shows the old
/// picture with the writes applied in turn, and the caches stay coherent
/// with SRAM; after a flush SRAM holds exactly that.
pub proof fn lemma_paint(d: Display420Tri, mem: Seq<u8>, writes: Seq<(i32, i32, TriColor)>)
    requires
        d.coherent(mem),
    ensures
        ({
            let (dn, memn) = painted(d, mem, writes);
            &&& dn.coherent(memn)
            &&& dn.shown(memn) == with_painted(d.shown(mem), writes)
            &&& sram_run(memn, dn.flush_actions()) == with_painted(d.shown(mem), writes)
        }),
    decreases writes.len(),
{
    if writes.len() > 0 {
        let (x, y, c) = writes[0];
        lemma_write_pixel(d, mem, x, y, c);
        let acts = d.pixel_actions(x, y);
        let d1 = d.pixel_committed(x, y, c, acts.len(), sram_reads(mem, acts));
        lemma_paint(d1, sram_run(mem, acts), writes.drop_first());
    } else {
        lemma_flush_caches(d, mem);
    }
}

/// Reading back after writes of several colors: a pixel on the panel has
/// the bits of the last color written to it, and keeps its bits if none was.
pub proof fn lemma_painted_readback(mem: Seq<u8>, writes: Seq<(i32, i32, TriColor)>, x: i32, y: i32)
    requires
        mem.len() == SRAM_SIZE,
        pixel_offset_spec(x, y) is Some,
    ensures
        with_painted(mem, writes).len() == SRAM_SIZE,
        pixel_at(with_painted(mem, writes), x, y) == match last_write(writes, x, y) {
            Some(c) => pixel_bits(c),
            None => pixel_at(mem, x, y),
        },
    decreases writes.len(),
{
    if writes.len() > 0 {
        let (x0, y0, c0) = writes[0];
        let mem1 = with_pixel(mem, x0, y0, c0);
        assert(mem1.len() == SRAM_SIZE);
        lemma_painted_readback(mem1, writes.drop_first(), x, y);
        if pixel_offset_spec(x0, y0) is Some {
            lemma_pixel_readback(mem, x0, y0, c0, x, y);
        } else {
            assert(x0 != x || y0 != y);
        }
    }
}

/// Flushing the caches: afterwards SRAM holds exactly the framebuffer as
/// drawing saw it, and both caches are clean and coherent.
pub proof fn lemma_flush_caches(d: Display420Tri, mem: Seq<u8>)
    requires
        d.coherent(mem),
    ensures
        ({
            let acts = d.flush_actions();
            let mem1 = sram_run(mem, acts);
            let d1 = d.flush_committed(acts.len());
            &&& mem1 == d.shown(mem)
            &&& sram_reads(mem, acts) == Seq::<u8>::empty()
            &&& d1.coherent(mem1)
            &&& d1.shown(mem1) == mem1
            &&& !d1.black.dirty && !d1.red.dirty
            &&& forall|i: int| 0 <= i < acts.len() ==> #[trigger] acts[i] is SramWrite
        }),
{
    let bw = d.black.writeback_actions();
    let rw = d.red.writeback_actions();
    let acts = d.flush_actions();
    lemma_sram_run_append(mem, bw, rw);
    lemma_writeback(d.black, mem);
    let s0 = d.black.shown(mem);
    assert(d.red.coherent(s0)) by {
        if let Some(a) = d.red.addr {
            assert(!d.black.covers(a as int));
        }
    }
    lemma_writeback(d.red, s0);
    let mem1 = sram_run(mem, acts);
    let d1 = d.flush_committed(acts.len());
    assert(d1.black.coherent(mem1)) by {
        if let Some(a) = d.black.addr {
            assert(!d.red.covers(a as int));
        }
    }
    assert(d1.shown(mem1) =~= mem1);
    assert forall|i: int| 0 <= i < acts.len() implies #[trigger] acts[i] is SramWrite by {
        if i < bw.len() {
            assert(acts[i] == bw[i]);
        } else {
            assert(acts[i] == rw[i - bw.len()]);
        }
    }
}

/// Clearing: afterwards the black/white plane holds the color's fill byte
/// everywhere, so does the red plane, the rest of SRAM holds what the
/// framebuffer showed, and both caches are empty.
pub proof fn lemma_clear_to(d: Display420Tri, mem: Seq<u8>, color: TriColor)
    requires
        d.coherent(mem),
    ensures
        ({
            let acts = d.clear_actions(color);
            let mem1 = sram_run(mem, acts);
            let d1 = d.clear_committed(color, acts.len());
            &&& mem1 == filled(filled(d.shown(mem), BLACK_BASE as int, RED_BASE as int, fill_bytes(color).0),
                RED_BASE as int, RED_BASE + PLANE_LEN, fill_bytes(color).1)
            &&& d1.coherent(mem1)
            &&& d1.shown(mem1) == mem1
            &&& d1.black.addr is None && d1.red.addr is None
        }),
{
    let f = fill_bytes(color);
    let fa = d.flush_actions();
    let fb = fill_plane_actions(BLACK_BASE, f.0, 0);
    let fr = fill_plane_actions(RED_BASE, f.1, 0);
    let acts = d.clear_actions(color);
    assert(acts == fa + fb + fr);
    lemma_flush_caches(d, mem);
    lemma_sram_run_append(mem, fa + fb, fr);
    lemma_sram_run_append(mem, fa, fb);
    let s = d.shown(mem);
    lemma_fill_plane(s, BLACK_BASE, f.0, 0);
    let m2 = filled(s, BLACK_BASE as int, RED_BASE as int, f.0);
    lemma_fill_plane(m2, RED_BASE, f.1, 0);
}

/// Every on-panel pixel of a cleared framebuffer has the clearing color's bits.
pub proof fn lemma_cleared_pixel(mem: Seq<u8>, color: TriColor, x: i32, y: i32)
    requires
        mem.len() == SRAM_SIZE,
        pixel_offset_spec(x, y) is Some,
    ensures
        pixel_at(filled(filled(mem, BLACK_BASE as int, RED_BASE as int, fill_bytes(color).0),
            RED_BASE as int, RED_BASE + PLANE_LEN, fill_bytes(color).1), x, y) == pixel_bits(color),
{
    lemma_fill_matches_pixel(color, pixel_bit(x));
}

/// Showing the framebuffer: the panel receives the whole-panel window and
/// cursor commands, `WRITE_RAM_BW` and then exactly the black/white plane as
/// drawing saw it, then the cursor again, `WRITE_RAM_RED` and exactly the
/// red plane; afterwards SRAM holds the framebuffer and the caches are clean.
pub proof fn lemma_flush_to_panel(d: Display420Tri, mem: Seq<u8>)
    requires
        d.coherent(mem),
    ensures
        ({
            let acts = d.panel_actions();
            let s = d.shown(mem);
            let d1 = d.flush_committed(acts.len());
            &&& panel_received(mem, acts, Seq::empty())
                == panel_bytes(full_window_actions() + ram_address_actions(0, 0) + command_actions(WRITE_RAM_BW))
                    + s.subrange(BLACK_BASE as int, RED_BASE as int)
                    + panel_bytes(ram_address_actions(0, 0) + command_actions(WRITE_RAM_RED))
                    + s.subrange(RED_BASE as int, RED_BASE + PLANE_LEN)
            &&& sram_run(mem, acts) == s
            &&& d1.coherent(s)
            &&& d1.shown(s) == s
        }),
{
    let fa = d.flush_actions();
    let pre1 = full_window_actions() + ram_address_actions(0, 0) + command_actions(WRITE_RAM_BW);
    let st1 = stream_plane_actions(BLACK_BASE, 0);
    let pre2 = ram_address_actions(0, 0) + command_actions(WRITE_RAM_RED);
    let st2 = stream_plane_actions(RED_BASE, 0);
    let acts = d.panel_actions();
    assert(acts =~= fa + (pre1 + (st1 + (pre2 + st2))));
    let s = d.shown(mem);
    let e = Seq::<u8>::empty();
    lemma_flush_caches(d, mem);
    lemma_sram_writes_only(mem, fa, e);
    lemma_panel_received_append(mem, fa, pre1 + (st1 + (pre2 + st2)), e);
    lemma_sram_run_append(mem, fa, pre1 + (st1 + (pre2 + st2)));
    assert forall|i: int| 0 <= i < pre1.len() implies (#[trigger] pre1[i] is PanelDataCommand || pre1[i] is PanelWrite) by {}
    assert forall|i: int| 0 <= i < pre2.len() implies (#[trigger] pre2[i] is PanelDataCommand || pre2[i] is PanelWrite) by {}
    lemma_panel_only(s, pre1, e);
    lemma_panel_received_append(s, pre1, st1 + (pre2 + st2), e);
    lemma_sram_run_append(s, pre1, st1 + (pre2 + st2));
    lemma_stream_plane(s, BLACK_BASE, 0, e);
    let l1 = last_read_after(s, st1, e);
    lemma_panel_received_append(s, st1, pre2 + st2, e);
    lemma_sram_run_append(s, st1, pre2 + st2);
    lemma_panel_only(s, pre2, l1);
    lemma_panel_received_append(s, pre2, st2, l1);
    lemma_sram_run_append(s, pre2, st2);
    lemma_stream_plane(s, RED_BASE, 0, l1);
    assert(s.subrange(BLACK_BASE + 0, BLACK_BASE + PLANE_LEN) =~= s.subrange(BLACK_BASE as int, RED_BASE as int));
    assert(panel_received(mem, acts, e) =~= panel_bytes(pre1) + s.subrange(BLACK_BASE as int, RED_BASE as int)
        + panel_bytes(pre2) + s.subrange(RED_BASE as int, RED_BASE + PLANE_LEN));
}

/// Number of chunks in a plane fill or stream.
pub open spec fn plane_chunks(done: nat) -> nat {
    if done >= PLANE_LEN { 0 } else { ((PLANE_LEN - done + 255) / 256) as nat }
}

pub proof fn lemma_fill_plane_len(base: u16, fill: u8, written: nat)
    ensures
        fill_plane_actions(base, fill, written).len() == plane_chunks(written),
    decreases PLANE_LEN - written,
{
    if written < PLANE_LEN {
        let n = crate::ssd1683::chunk_len(written, PLANE_LEN as nat);
        lemma_fill_plane_len(base, fill, written + n);
    }
}

/// Number of operations in a whole-plane fill.
pub fn fill_plane_len() -> (n: usize)
    ensures
        n == plane_chunks(0),
{
    (PLANE_LEN + 255) / 256
}

} // verus!
