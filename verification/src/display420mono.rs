//! The monochrome framebuffer of the 4.2" mono panel, held in the 23K256
//! SRAM: one plane of [`PLANE_LEN`] bytes from address 0, bit set = paper
//! (white), bit clear = ink (black), behind a single [`PlaneCache`].
//!
//! As with the tri-color display, each operation returns its bus traffic and
//! a `_done` method updates the cache from the [`BusOutcome`].
use vstd::prelude::*;
use crate::bus::{BusOp, BusAction, BusOutcome, append_ops};
use crate::color::{BinaryColor, mono_fill_byte, mono_pixel_bit, encode_mono_fill, bit_of, lemma_mono_fill_matches_pixel};
use crate::framebuffer::{
    pixel_offset, pixel_offset_spec, pixel_mask, pixel_bit, pixel_mask_of, fill_plane, fill_plane_actions,
    stream_plane, stream_plane_actions, lemma_mask_bit, lemma_pixel_position_unique, filled,
    lemma_fill_plane, lemma_stream_plane, panel_received, lemma_panel_received_append,
    lemma_panel_only, lemma_sram_writes_only,
};
use crate::plane_cache::{PlaneCache, modify_byte, lemma_touch, lemma_writeback, lemma_partial_load};
use crate::sram23k256::{Sram23k256, SRAM_SIZE, sram_run, sram_reads, lemma_sram_run_append};
use crate::ssd1683::{
    Ssd1683, WIDTH, HEIGHT, PLANE_LEN, full_window_actions, ram_address_actions, command_actions,
    panel_bytes,
};
use crate::opcode::WRITE_RAM_BW;
use crate::display420tri::{fill_plane_len, lemma_fill_plane_len};

verus! {

/// Bytes in the monochrome framebuffer.
pub const BUF_LEN: usize = 15000;

/// SRAM contents `mem` with pixel `(x, y)` set to `color`; unchanged if the
/// pixel is off the panel.
pub open spec fn with_mono_pixel(mem: Seq<u8>, x: i32, y: i32, color: BinaryColor) -> Seq<u8> {
    match pixel_offset_spec(x, y) {
        None => mem,
        Some(off) => mem.update(off as int, modify_byte(mem[off as int], pixel_mask(x), mono_pixel_bit(color))),
    }
}

/// The bit of pixel `(x, y)` in SRAM contents `mem`.
pub open spec fn mono_pixel_at(mem: Seq<u8>, x: i32, y: i32) -> bool {
    bit_of(mem[pixel_offset_spec(x, y)->Some_0 as int], pixel_bit(x))
}

/// A monochrome panel's framebuffer in SRAM.
pub struct Display420Mono {
    pub sram: Sram23k256,
    pub cache: PlaneCache,
}

impl Display420Mono {
    /// The cache holds a byte of the plane, if any.
    pub open spec fn wf(self) -> bool {
        &&& (self.cache.addr matches Some(a) ==> a < PLANE_LEN)
        &&& (self.cache.addr is None ==> !self.cache.dirty)
    }

    /// The cache agrees with SRAM contents `mem`.
    pub open spec fn coherent(self, mem: Seq<u8>) -> bool {
        &&& self.wf()
        &&& mem.len() == SRAM_SIZE
        &&& self.cache.coherent(mem)
    }

    /// The framebuffer as drawing sees it.
    pub open spec fn shown(self, mem: Seq<u8>) -> Seq<u8> {
        self.cache.shown(mem)
    }

    /// Traffic of [`Self::write_pixel`].
    pub open spec fn pixel_actions(self, x: i32, y: i32) -> Seq<BusAction> {
        match pixel_offset_spec(x, y) {
            None => Seq::empty(),
            Some(off) => self.cache.load_actions(off),
        }
    }

    /// The display after [`Self::write_pixel_done`]: on a cache miss, a
    /// write-back that went through cleans the cache even if the read failed.
    pub open spec fn pixel_committed(self, x: i32, y: i32, color: BinaryColor, completed: nat, read: Seq<u8>) -> Self {
        match pixel_offset_spec(x, y) {
            None => self,
            Some(off) => {
                let wn = self.cache.writeback_actions().len();
                let c = self.cache;
                let c1 = if c.addr == Some(off) {
                    c.touched(off, 0u8, pixel_mask(x), mono_pixel_bit(color))
                } else if completed >= wn + 1 && read.len() >= 1 {
                    c.touched(off, read[0], pixel_mask(x), mono_pixel_bit(color))
                } else if wn > 0 && completed >= wn {
                    c.cleaned()
                } else {
                    c
                };
                Display420Mono { sram: self.sram, cache: c1 }
            },
        }
    }

    /// Traffic of [`Self::flush_cache`].
    pub open spec fn flush_actions(self) -> Seq<BusAction> {
        self.cache.writeback_actions()
    }

    /// The display after [`Self::flush_cache_done`].
    pub open spec fn flush_committed(self, completed: nat) -> Self {
        let wn = self.cache.writeback_actions().len();
        Display420Mono {
            sram: self.sram,
            cache: if wn > 0 && completed >= wn { self.cache.cleaned() } else { self.cache },
        }
    }

    /// Traffic of [`Self::clear_to`].
    pub open spec fn clear_actions(self, color: BinaryColor) -> Seq<BusAction> {
        self.flush_actions() + fill_plane_actions(0, mono_fill_byte(color), 0)
    }

    /// The display after [`Self::clear_to_done`]: the cache forgets its
    /// address (keeping its byte) if everything went through.
    pub open spec fn clear_committed(self, color: BinaryColor, completed: nat) -> Self {
        if completed >= self.clear_actions(color).len() {
            Display420Mono {
                sram: self.sram,
                cache: PlaneCache { addr: None, byte: self.cache.byte, dirty: false },
            }
        } else {
            self.flush_committed(completed)
        }
    }

    /// Traffic of [`Self::flush_to_panel`].
    pub open spec fn panel_actions(self) -> Seq<BusAction> {
        self.flush_actions() + full_window_actions() + ram_address_actions(0, 0)
            + command_actions(WRITE_RAM_BW) + stream_plane_actions(0, 0)
    }

    /// A display over `sram` with an empty cache.
    pub fn new(sram: Sram23k256) -> (d: Self)
        ensures
            d.cache == (PlaneCache { addr: None, byte: 0xFF, dirty: false }),
            d.wf(),
    {
        Display420Mono { sram, cache: PlaneCache { addr: None, byte: 0xFF, dirty: false } }
    }

    /// The traffic that draws pixel `(x, y)`: the cache's load traffic, or
    /// nothing off the panel.
    pub fn write_pixel(&self, x: i32, y: i32, color: BinaryColor) -> (ops: Vec<BusOp>)
        ensures
            ops.deep_view() == self.pixel_actions(x, y),
    {
        match pixel_offset(x, y) {
            None => {
                let ops: Vec<BusOp> = Vec::new();
                assert(ops.deep_view() =~= Seq::<BusAction>::empty());
                ops
            },
            Some(off) => self.cache.load_ops(&self.sram, off),
        }
    }

    /// Updates the cache after running [`Self::write_pixel`]'s traffic.
    pub fn write_pixel_done(&mut self, x: i32, y: i32, color: BinaryColor, outcome: &BusOutcome)
        ensures
            *final(self) == old(self).pixel_committed(x, y, color, outcome.completed as nat, outcome.read@),
    {
        match pixel_offset(x, y) {
            None => {},
            Some(off) => {
                let mask = pixel_mask_of(x);
                let set_bit = match color {
                    BinaryColor::Off => true,
                    BinaryColor::On => false,
                };
                let wn = self.cache.writeback_len();
                if self.cache.holds(off) {
                    self.cache.touch(off, 0, mask, set_bit);
                } else if outcome.completed >= wn + 1 && outcome.read.len() >= 1 {
                    self.cache.touch(off, outcome.read[0], mask, set_bit);
                } else if wn > 0 && outcome.completed >= wn {
                    self.cache.mark_clean();
                }
            },
        }
    }

    /// The traffic that writes a dirty cached byte back to SRAM.
    pub fn flush_cache(&self) -> (ops: Vec<BusOp>)
        ensures
            ops.deep_view() == self.flush_actions(),
    {
        self.cache.writeback_ops(&self.sram)
    }

    /// Marks the cache clean if its write-back went through.
    pub fn flush_cache_done(&mut self, outcome: &BusOutcome)
        ensures
            *final(self) == old(self).flush_committed(outcome.completed as nat),
    {
        let wn = self.cache.writeback_len();
        if wn > 0 && outcome.completed >= wn {
            self.cache.mark_clean();
        }
    }

    /// The traffic that fills the framebuffer with `color`.
    pub fn clear_to(&self, color: BinaryColor) -> (ops: Vec<BusOp>)
        ensures
            ops.deep_view() == self.clear_actions(color),
    {
        let mut ops = self.flush_cache();
        append_ops(&mut ops, fill_plane(&self.sram, 0, encode_mono_fill(color)));
        ops
    }

    /// Updates the cache after running [`Self::clear_to`]'s traffic.
    pub fn clear_to_done(&mut self, color: BinaryColor, outcome: &BusOutcome)
        ensures
            *final(self) == old(self).clear_committed(color, outcome.completed as nat),
    {
        proof {
            lemma_fill_plane_len(0, mono_fill_byte(color), 0);
        }
        let total = self.cache.writeback_len() + fill_plane_len();
        if outcome.completed >= total {
            self.cache.addr = None;
            self.cache.dirty = false;
        } else {
            self.flush_cache_done(outcome);
        }
    }

    /// The traffic that shows the framebuffer: write the cache back, point
    /// the controller at the whole panel and stream the plane into RAM 1.
    pub fn flush_to_panel(&self, epd: &Ssd1683) -> (ops: Vec<BusOp>)
        ensures
            ops.deep_view() == self.panel_actions(),
    {
        let mut ops = self.flush_cache();
        append_ops(&mut ops, epd.set_ram_window(0, 0, WIDTH - 1, HEIGHT - 1));
        append_ops(&mut ops, epd.set_ram_address(0, 0));
        append_ops(&mut ops, epd.start_write_ram1());
        append_ops(&mut ops, stream_plane(&self.sram, epd, 0));
        ops
    }

    /// Updates the cache after running [`Self::flush_to_panel`]'s traffic.
    pub fn flush_to_panel_done(&mut self, outcome: &BusOutcome)
        ensures
            *final(self) == old(self).flush_committed(outcome.completed as nat),
    {
        self.flush_cache_done(outcome);
    }
}

/// Drawing a pixel: once its traffic has gone through, the framebuffer
/// shows the old picture with just that pixel set, and the cache stays
/// coherent with SRAM.
pub proof fn lemma_mono_write_pixel(d: Display420Mono, mem: Seq<u8>, x: i32, y: i32, color: BinaryColor)
    requires
        d.coherent(mem),
    ensures
        ({
            let acts = d.pixel_actions(x, y);
            let mem1 = sram_run(mem, acts);
            let d1 = d.pixel_committed(x, y, color, acts.len(), sram_reads(mem, acts));
            &&& d1.coherent(mem1)
            &&& d1.shown(mem1) == with_mono_pixel(d.shown(mem), x, y, color)
        }),
{
    match pixel_offset_spec(x, y) {
        None => {
            assert(d.pixel_actions(x, y) =~= Seq::<BusAction>::empty());
        },
        Some(off) => {
            lemma_touch(d.cache, mem, off, pixel_mask(x), mono_pixel_bit(color));
            let acts = d.pixel_actions(x, y);
            let d1 = d.pixel_committed(x, y, color, acts.len(), sram_reads(mem, acts));
            assert(d1.shown(sram_run(mem, acts)) =~= with_mono_pixel(d.shown(mem), x, y, color));
        },
    }
}

/// Drawing a pixel that fails part way: whichever prefix of its traffic
/// went through, the cache stays coherent with what SRAM then holds.
pub proof fn lemma_mono_write_pixel_interrupted(d: Display420Mono, mem: Seq<u8>, x: i32, y: i32, color: BinaryColor, k: nat)
    requires
        d.coherent(mem),
        k < d.pixel_actions(x, y).len(),
    ensures
        ({
            let acts = d.pixel_actions(x, y).take(k as int);
            d.pixel_committed(x, y, color, k, sram_reads(mem, acts)).coherent(sram_run(mem, acts))
        }),
{
    let off = pixel_offset_spec(x, y)->Some_0;
    lemma_partial_load(d.cache, mem, off, k);
    let acts = d.pixel_actions(x, y).take(k as int);
    if k > 0 {
        lemma_writeback(d.cache, mem);
        assert(acts =~= d.cache.writeback_actions());
    }
}

/// Reading back a drawn pixel gives its color's bit; every other pixel on
/// the panel keeps its bit.
pub proof fn lemma_mono_pixel_readback(mem: Seq<u8>, x: i32, y: i32, color: BinaryColor, x2: i32, y2: i32)
    requires
        mem.len() == SRAM_SIZE,
        pixel_offset_spec(x, y) is Some,
        pixel_offset_spec(x2, y2) is Some,
    ensures
        mono_pixel_at(with_mono_pixel(mem, x, y, color), x2, y2)
            == if x2 == x && y2 == y { mono_pixel_bit(color) } else { mono_pixel_at(mem, x2, y2) },
{
    let off = pixel_offset_spec(x, y)->Some_0;
    let off2 = pixel_offset_spec(x2, y2)->Some_0;
    lemma_mask_bit(mem[off as int], pixel_bit(x), pixel_bit(x2), mono_pixel_bit(color));
    if off2 == off && pixel_bit(x2) == pixel_bit(x) {
        lemma_pixel_position_unique(x, y, x2, y2);
    }
}

/// SRAM contents `mem` with the pixels `pixels` set to `color`, one after
/// the other.
pub open spec fn with_mono_pixels(mem: Seq<u8>, pixels: Seq<(i32, i32)>, color: BinaryColor) -> Seq<u8>
    decreases pixels.len(),
{
    if pixels.len() == 0 {
        mem
    } else {
        with_mono_pixels(with_mono_pixel(mem, pixels[0].0, pixels[0].1, color), pixels.drop_first(), color)
    }
}

/// The display and SRAM contents after drawing `pixels` in `color`, one
/// pixel at a time, each pixel's traffic going through and its `_done`
/// following it.
pub open spec fn mono_drawn_pixels(d: Display420Mono, mem: Seq<u8>, pixels: Seq<(i32, i32)>, color: BinaryColor) -> (Display420Mono, Seq<u8>)
    decreases pixels.len(),
{
    if pixels.len() == 0 {
        (d, mem)
    } else {
        let (x, y) = pixels[0];
        let acts = d.pixel_actions(x, y);
        let d1 = d.pixel_committed(x, y, color, acts.len(), sram_reads(mem, acts));
        mono_drawn_pixels(d1, sram_run(mem, acts), pixels.drop_first(), color)
    }
}

/// Drawing a sequence of pixels: the framebuffer then shows the old
/// picture with each of them set to `color` in turn, and the cache stays
/// coherent with SRAM.
pub proof fn lemma_mono_draw_pixels(d: Display420Mono, mem: Seq<u8>, pixels: Seq<(i32, i32)>, color: BinaryColor)
    requires
        d.coherent(mem),
    ensures
        ({
            let (dn, memn) = mono_drawn_pixels(d, mem, pixels, color);
            &&& dn.coherent(memn)
            &&& dn.shown(memn) == with_mono_pixels(d.shown(mem), pixels, color)
        }),
    decreases pixels.len(),
{
    if pixels.len() > 0 {
        let (x, y) = pixels[0];
        lemma_mono_write_pixel(d, mem, x, y, color);
        let acts = d.pixel_actions(x, y);
        let d1 = d.pixel_committed(x, y, color, acts.len(), sram_reads(mem, acts));
        lemma_mono_draw_pixels(d1, sram_run(mem, acts), pixels.drop_first(), color);
    }
}

/// Drawing a sequence of pixels and then flushing the cache: SRAM then
/// holds the old picture with each pixel set to `color` in turn.
pub proof fn lemma_mono_draw_pixels_then_flush(d: Display420Mono, mem: Seq<u8>, pixels: Seq<(i32, i32)>, color: BinaryColor)
    requires
        d.coherent(mem),
    ensures
        ({
            let (dn, memn) = mono_drawn_pixels(d, mem, pixels, color);
            sram_run(memn, dn.flush_actions()) == with_mono_pixels(d.shown(mem), pixels, color)
        }),
{
    lemma_mono_draw_pixels(d, mem, pixels, color);
    let (dn, memn) = mono_drawn_pixels(d, mem, pixels, color);
    lemma_mono_flush_cache(dn, memn);
}

/// Reading back after a sequence of pixel writes: a pixel on the panel has
/// the color's bit if it was among them, and keeps its bit otherwise.
pub proof fn lemma_mono_pixels_readback(mem: Seq<u8>, pixels: Seq<(i32, i32)>, color: BinaryColor, x: i32, y: i32)
    requires
        mem.len() == SRAM_SIZE,
        pixel_offset_spec(x, y) is Some,
    ensures
        with_mono_pixels(mem, pixels, color).len() == SRAM_SIZE,
        mono_pixel_at(with_mono_pixels(mem, pixels, color), x, y)
            == if pixels.contains((x, y)) { mono_pixel_bit(color) } else { mono_pixel_at(mem, x, y) },
    decreases pixels.len(),
{
    if pixels.len() == 0 {
        assert(!pixels.contains((x, y)));
    } else {
        let (x0, y0) = pixels[0];
        let rest = pixels.drop_first();
        let mem1 = with_mono_pixel(mem, x0, y0, color);
        assert(mem1.len() == SRAM_SIZE);
        lemma_mono_pixels_readback(mem1, rest, color, x, y);
        if pixel_offset_spec(x0, y0) is Some {
            lemma_mono_pixel_readback(mem, x0, y0, color, x, y);
        } else {
            assert(x0 != x || y0 != y);
        }
        assert(pixels.contains((x, y)) == (pixels[0] == (x, y) || rest.contains((x, y)))) by {
            if pixels.contains((x, y)) {
                let k = choose|k: int| 0 <= k < pixels.len() && pixels[k] == (x, y);
                if k > 0 {
                    assert(rest[k - 1] == (x, y));
                }
            }
            if rest.contains((x, y)) {
                let k = choose|k: int| 0 <= k < rest.len() && rest[k] == (x, y);
                assert(pixels[k + 1] == (x, y));
            }
        }
    }
}

/// SRAM contents `mem` after the writes `writes`, each a pixel and its
/// color, one after the other.
pub open spec fn with_mono_painted(mem: Seq<u8>, writes: Seq<(i32, i32, BinaryColor)>) -> Seq<u8>
    decreases writes.len(),
{
    if writes.len() == 0 {
        mem
    } else {
        with_mono_painted(with_mono_pixel(mem, writes[0].0, writes[0].1, writes[0].2), writes.drop_first())
    }
}

/// The color of the last of `writes` that sets pixel `(x, y)`, if any does.
pub open spec fn mono_last_write(writes: Seq<(i32, i32, BinaryColor)>, x: i32, y: i32) -> Option<BinaryColor>
    decreases writes.len(),
{
    if writes.len() == 0 {
        None
    } else {
        match mono_last_write(writes.drop_first(), x, y) {
            Some(c) => Some(c),
            None => if writes[0].0 == x && writes[0].1 == y { Some(writes[0].2) } else { None },
        }
    }
}

/// The display and SRAM contents after the writes `writes`, one pixel at a
/// time, each pixel's traffic going through and its `_done` following it.
pub open spec fn mono_painted(d: Display420Mono, mem: Seq<u8>, writes: Seq<(i32, i32, BinaryColor)>) -> (Display420Mono, Seq<u8>)
    decreases writes.len(),
{
    if writes.len() == 0 {
        (d, mem)
    } else {
        let (x, y, c) = writes[0];
        let acts = d.pixel_actions(x, y);
        let d1 = d.pixel_committed(x, y, c, acts.len(), sram_reads(mem, acts));
        mono_painted(d1, sram_run(mem, acts), writes.drop_first())
    }
}

/// Drawing pixels of several colors: the framebuffer then shows the old
/// picture with the writes applied in turn, and the cache stays coherent
/// with SRAM; after a flush SRAM holds exactly that.
pub proof fn lemma_mono_paint(d: Display420Mono, mem: Seq<u8>, writes: Seq<(i32, i32, BinaryColor)>)
    requires
        d.coherent(mem),
    ensures
        ({
            let (dn, memn) = mono_painted(d, mem, writes);
            &&& dn.coherent(memn)
            &&& dn.shown(memn) == with_mono_painted(d.shown(mem), writes)
            &&& sram_run(memn, dn.flush_actions()) == with_mono_painted(d.shown(mem), writes)
        }),
    decreases writes.len(),
{
    if writes.len() > 0 {
        let (x, y, c) = writes[0];
        lemma_mono_write_pixel(d, mem, x, y, c);
        let acts = d.pixel_actions(x, y);
        let d1 = d.pixel_committed(x, y, c, acts.len(), sram_reads(mem, acts));
        lemma_mono_paint(d1, sram_run(mem, acts), writes.drop_first());
    } else {
        lemma_mono_flush_cache(d, mem);
    }
}

/// Reading back after writes of several colors: a pixel on the panel has
/// the bits of the last color written to it, and keeps its bits if none was.
pub proof fn lemma_mono_painted_readback(mem: Seq<u8>, writes: Seq<(i32, i32, BinaryColor)>, x: i32, y: i32)
    requires
        mem.len() == SRAM_SIZE,
        pixel_offset_spec(x, y) is Some,
    ensures
        with_mono_painted(mem, writes).len() == SRAM_SIZE,
        mono_pixel_at(with_mono_painted(mem, writes), x, y) == match mono_last_write(writes, x, y) {
            Some(c) => mono_pixel_bit(c),
            None => mono_pixel_at(mem, x, y),
        },
    decreases writes.len(),
{
    if writes.len() > 0 {
        let (x0, y0, c0) = writes[0];
        let mem1 = with_mono_pixel(mem, x0, y0, c0);
        assert(mem1.len() == SRAM_SIZE);
        lemma_mono_painted_readback(mem1, writes.drop_first(), x, y);
        if pixel_offset_spec(x0, y0) is Some {
            lemma_mono_pixel_readback(mem, x0, y0, c0, x, y);
        } else {
            assert(x0 != x || y0 != y);
        }
    }
}

/// Flushing the cache: afterwards SRAM holds the framebuffer as drawing saw
/// it, and the cache is clean and coherent.
pub proof fn lemma_mono_flush_cache(d: Display420Mono, mem: Seq<u8>)
    requires
        d.coherent(mem),
    ensures
        ({
            let acts = d.flush_actions();
            let mem1 = sram_run(mem, acts);
            let d1 = d.flush_committed(acts.len());
            &&& mem1 == d.shown(mem)
            &&& sram_reads(mem, acts) == Seq::<u8>::empty()
            &&& d1.coherent(mem1)
            &&& d1.shown(mem1) == mem1
            &&& !d1.cache.dirty
            &&& forall|i: int| 0 <= i < acts.len() ==> #[trigger] acts[i] is SramWrite
        }),
{
    lemma_writeback(d.cache, mem);
    let d1 = d.flush_committed(d.flush_actions().len());
    assert(d1.shown(d.shown(mem)) =~= d.shown(mem));
}

/// Clearing: afterwards the plane holds the color's fill byte everywhere,
/// the rest of SRAM holds what the framebuffer showed, and the cache is empty.
pub proof fn lemma_mono_clear_to(d: Display420Mono, mem: Seq<u8>, color: BinaryColor)
    requires
        d.coherent(mem),
    ensures
        ({
            let acts = d.clear_actions(color);
            let mem1 = sram_run(mem, acts);
            let d1 = d.clear_committed(color, acts.len());
            &&& mem1 == filled(d.shown(mem), 0, PLANE_LEN as int, mono_fill_byte(color))
            &&& d1.coherent(mem1)
            &&& d1.shown(mem1) == mem1
            &&& d1.cache.addr is None
        }),
{
    let fa = d.flush_actions();
    let fb = fill_plane_actions(0, mono_fill_byte(color), 0);
    lemma_mono_flush_cache(d, mem);
    lemma_sram_run_append(mem, fa, fb);
    lemma_fill_plane(d.shown(mem), 0, mono_fill_byte(color), 0);
}

/// Every on-panel pixel of a cleared framebuffer has the clearing color's bit.
pub proof fn lemma_mono_cleared_pixel(mem: Seq<u8>, color: BinaryColor, x: i32, y: i32)
    requires
        mem.len() == SRAM_SIZE,
        pixel_offset_spec(x, y) is Some,
    ensures
        mono_pixel_at(filled(mem, 0, PLANE_LEN as int, mono_fill_byte(color)), x, y) == mono_pixel_bit(color),
{
    lemma_mono_fill_matches_pixel(color, pixel_bit(x));
}

/// Showing the framebuffer: the panel receives the whole-panel window and
/// cursor commands, `WRITE_RAM_BW`, then exactly the plane as drawing saw it.
pub proof fn lemma_mono_flush_to_panel(d: Display420Mono, mem: Seq<u8>)
    requires
        d.coherent(mem),
    ensures
        ({
            let acts = d.panel_actions();
            let s = d.shown(mem);
            let d1 = d.flush_committed(acts.len());
            &&& panel_received(mem, acts, Seq::empty())
                == panel_bytes(full_window_actions() + ram_address_actions(0, 0) + command_actions(WRITE_RAM_BW))
                    + s.subrange(0, PLANE_LEN as int)
            &&& sram_run(mem, acts) == s
            &&& d1.coherent(s)
            &&& d1.shown(s) == s
        }),
{
    let fa = d.flush_actions();
    let pre1 = full_window_actions() + ram_address_actions(0, 0) + command_actions(WRITE_RAM_BW);
    let st1 = stream_plane_actions(0, 0);
    let acts = d.panel_actions();
    assert(acts =~= fa + (pre1 + st1));
    let s = d.shown(mem);
    let e = Seq::<u8>::empty();
    lemma_mono_flush_cache(d, mem);
    lemma_sram_writes_only(mem, fa, e);
    lemma_panel_received_append(mem, fa, pre1 + st1, e);
    lemma_sram_run_append(mem, fa, pre1 + st1);
    assert forall|i: int| 0 <= i < pre1.len() implies (#[trigger] pre1[i] is PanelDataCommand || pre1[i] is PanelWrite) by {}
    lemma_panel_only(s, pre1, e);
    lemma_panel_received_append(s, pre1, st1, e);
    lemma_sram_run_append(s, pre1, st1);
    lemma_stream_plane(s, 0, 0, e);
    assert(s.subrange(0int + 0, 0int + PLANE_LEN) =~= s.subrange(0, PLANE_LEN as int));
}

} // verus!
