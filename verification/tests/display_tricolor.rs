use badge::bus::{BusOp, BusOutcome};
use badge::color::TriColor;
use badge::draw::{LineDraw, LineStep};
use badge::display420tri::{Display420Tri, BLACK_BASE, RED_BASE};
use badge::sram23k256::{Sram23k256, SRAM_SIZE};
use badge::ssd1683::{Ssd1683, PLANE_LEN};

/// A simulated 23K256 and panel controller that can be made to fail the
/// operation with a given index.
struct Bench {
    mem: Vec<u8>,
    panel: Vec<(bool, Vec<u8>)>,
    dc: bool,
    last: Vec<u8>,
    fail_at: Option<usize>,
    sram_writes: usize,
}

impl Bench {
    fn new() -> Self {
        Bench { mem: vec![0x5A; SRAM_SIZE], panel: Vec::new(), dc: false, last: Vec::new(), fail_at: None, sram_writes: 0 }
    }

    fn addr(h: &[u8]) -> usize {
        (h[1] as usize) << 8 | h[2] as usize
    }

    fn run(&mut self, ops: &[BusOp]) -> BusOutcome {
        let mut read = Vec::new();
        for (i, op) in ops.iter().enumerate() {
            if self.fail_at == Some(i) {
                return BusOutcome { completed: i, read };
            }
            match op {
                BusOp::PanelDataCommand(l) => self.dc = *l,
                BusOp::PanelWrite(b) => self.panel.push((self.dc, b.clone())),
                BusOp::PanelWriteRepeat(b, n) => self.panel.push((self.dc, vec![*b; *n])),
                BusOp::PanelWriteLastRead => self.panel.push((self.dc, self.last.clone())),
                BusOp::SramWrite(w) => {
                    assert_eq!(w[0], 0x02);
                    let a = Self::addr(w);
                    self.mem[a..a + w.len() - 3].copy_from_slice(&w[3..]);
                    self.sram_writes += 1;
                }
                BusOp::SramWriteThen(h, d) => {
                    let a = Self::addr(h);
                    self.mem[a..a + d.len()].copy_from_slice(d);
                    self.sram_writes += 1;
                }
                BusOp::SramWriteThenRepeat(h, b, n) => {
                    let a = Self::addr(h);
                    for x in &mut self.mem[a..a + n] {
                        *x = *b;
                    }
                    self.sram_writes += 1;
                }
                BusOp::SramWriteThenRead(h, n) => {
                    assert_eq!(h[0], 0x03);
                    let a = Self::addr(h);
                    self.last = self.mem[a..a + n].to_vec();
                    read.extend_from_slice(&self.last);
                }
                _ => {}
            }
        }
        BusOutcome { completed: ops.len(), read }
    }

    fn pixel(&self, x: usize, y: usize) -> (bool, bool) {
        let off = y * 50 + x / 8;
        let bit = 7 - (x % 8);
        ((self.mem[off] >> bit) & 1 == 1, (self.mem[RED_BASE as usize + off] >> bit) & 1 == 1)
    }
}

fn draw(d: &mut Display420Tri, b: &mut Bench, x: i32, y: i32, c: TriColor) -> bool {
    let ops = d.write_pixel(x, y, c);
    let out = b.run(&ops);
    let ok = out.completed == ops.len();
    d.write_pixel_done(x, y, c, &out);
    ok
}

fn flush(d: &mut Display420Tri, b: &mut Bench) {
    let ops = d.flush_caches();
    let out = b.run(&ops);
    d.flush_caches_done(&out);
}

fn clear(d: &mut Display420Tri, b: &mut Bench, c: TriColor) {
    let ops = d.clear_to(c);
    let out = b.run(&ops);
    d.clear_to_done(c, &out);
}

#[test]
fn plane_layout_constants() {
    assert_eq!(BLACK_BASE, 0);
    assert_eq!(RED_BASE as usize, PLANE_LEN);
    assert_eq!(PLANE_LEN, 400 * 300 / 8);
}

#[test]
fn clear_fills_both_planes() {
    let mut b = Bench::new();
    let mut d = Display420Tri::new(Sram23k256::new());
    clear(&mut d, &mut b, TriColor::Red);
    assert!(b.mem[..PLANE_LEN].iter().all(|&x| x == 0xFF));
    assert!(b.mem[PLANE_LEN..2 * PLANE_LEN].iter().all(|&x| x == 0xFF));
    assert!(b.mem[2 * PLANE_LEN..].iter().all(|&x| x == 0x5A));
    clear(&mut d, &mut b, TriColor::White);
    assert!(b.mem[..PLANE_LEN].iter().all(|&x| x == 0xFF));
    assert!(b.mem[PLANE_LEN..2 * PLANE_LEN].iter().all(|&x| x == 0x00));
    assert_eq!(b.pixel(123, 45), (true, false));
    clear(&mut d, &mut b, TriColor::Black);
    assert_eq!(b.pixel(399, 299), (false, false));
}

#[test]
fn clear_traffic_is_chunked() {
    let d = Display420Tri::new(Sram23k256::new());
    let ops = d.clear_to(TriColor::White);
    assert_eq!(ops.len(), 2 * 59);
    assert_eq!(ops[0], BusOp::SramWriteThenRepeat(vec![0x02, 0, 0], 0xFF, 256));
    assert_eq!(ops[58], BusOp::SramWriteThenRepeat(vec![0x02, 0x3A, 0x00], 0xFF, 152));
    assert_eq!(ops[59], BusOp::SramWriteThenRepeat(vec![0x02, 0x3A, 0x98], 0x00, 256));
}

#[test]
fn drawn_pixels_read_back() {
    let mut b = Bench::new();
    let mut d = Display420Tri::new(Sram23k256::new());
    clear(&mut d, &mut b, TriColor::White);
    assert!(draw(&mut d, &mut b, 0, 0, TriColor::Black));
    assert!(draw(&mut d, &mut b, 1, 0, TriColor::Red));
    assert!(draw(&mut d, &mut b, 399, 299, TriColor::Black));
    flush(&mut d, &mut b);
    assert_eq!(b.pixel(0, 0), (false, false));
    assert_eq!(b.pixel(1, 0), (true, true));
    assert_eq!(b.pixel(2, 0), (true, false));
    assert_eq!(b.pixel(399, 299), (false, false));
    assert_eq!(b.mem[0], 0x7F);
    assert_eq!(b.mem[PLANE_LEN], 0x40);
    assert_eq!(b.mem[14999], 0xFE);
}

#[test]
fn pixels_off_the_panel_are_ignored() {
    let mut b = Bench::new();
    let d = Display420Tri::new(Sram23k256::new());
    assert!(d.write_pixel(-1, 0, TriColor::Black).is_empty());
    assert!(d.write_pixel(400, 0, TriColor::Black).is_empty());
    assert!(d.write_pixel(0, 300, TriColor::Black).is_empty());
    assert!(d.write_pixel(0, -5, TriColor::Black).is_empty());
    let mut d = d;
    let before = b.mem.clone();
    assert!(draw(&mut d, &mut b, 500, 500, TriColor::Red));
    flush(&mut d, &mut b);
    assert_eq!(b.mem, before);
}

#[test]
fn same_byte_is_cached() {
    let mut b = Bench::new();
    let mut d = Display420Tri::new(Sram23k256::new());
    clear(&mut d, &mut b, TriColor::White);
    let first = d.write_pixel(8, 1, TriColor::Black);
    assert_eq!(
        first,
        vec![
            BusOp::SramWriteThenRead(vec![0x03, 0, 51], 1),
            BusOp::SramWriteThenRead(vec![0x03, 0x3A, 0xCB], 1),
        ]
    );
    assert!(draw(&mut d, &mut b, 8, 1, TriColor::Black));
    b.sram_writes = 0;
    for x in 9..16 {
        assert!(d.write_pixel(x, 1, TriColor::Black).is_empty());
        assert!(draw(&mut d, &mut b, x, 1, TriColor::Black));
    }
    assert_eq!(b.sram_writes, 0);
    // moving on writes the dirty black byte back; red is unchanged, so clean
    let next = d.write_pixel(16, 1, TriColor::Black);
    assert_eq!(
        next,
        vec![
            BusOp::SramWrite(vec![0x02, 0, 51, 0x00]),
            BusOp::SramWriteThenRead(vec![0x03, 0, 52], 1),
            BusOp::SramWriteThenRead(vec![0x03, 0x3A, 0xCC], 1),
        ]
    );
}

#[test]
fn failed_read_leaves_cache_unchanged() {
    let mut b = Bench::new();
    let mut d = Display420Tri::new(Sram23k256::new());
    clear(&mut d, &mut b, TriColor::White);
    assert!(draw(&mut d, &mut b, 0, 0, TriColor::Black));
    // next pixel in another byte: write-back, read black, read red; fail the black read
    b.fail_at = Some(1);
    assert!(!draw(&mut d, &mut b, 100, 0, TriColor::Black));
    b.fail_at = None;
    // the black byte is still cached and dirty: its write-back is planned again
    let again = d.write_pixel(100, 0, TriColor::Black);
    assert_eq!(again[0], BusOp::SramWrite(vec![0x02, 0, 0, 0x7F]));
    flush(&mut d, &mut b);
    assert_eq!(b.pixel(0, 0), (false, false));
    assert_eq!(b.pixel(100, 0), (true, false));
}

#[test]
fn failed_red_touch_keeps_black_touch() {
    let mut b = Bench::new();
    let mut d = Display420Tri::new(Sram23k256::new());
    clear(&mut d, &mut b, TriColor::White);
    b.fail_at = Some(1);
    assert!(!draw(&mut d, &mut b, 3, 3, TriColor::Red));
    b.fail_at = None;
    flush(&mut d, &mut b);
    assert_eq!(b.pixel(3, 3), (true, false));
    assert!(draw(&mut d, &mut b, 3, 3, TriColor::Red));
    flush(&mut d, &mut b);
    assert_eq!(b.pixel(3, 3), (true, true));
}

#[test]
fn flush_to_panel_streams_both_planes() {
    let mut b = Bench::new();
    let mut d = Display420Tri::new(Sram23k256::new());
    let epd = Ssd1683::new();
    clear(&mut d, &mut b, TriColor::White);
    assert!(draw(&mut d, &mut b, 10, 10, TriColor::Red));
    let ops = d.flush_to_panel(&epd);
    let out = b.run(&ops);
    d.flush_to_panel_done(&out);
    assert_eq!(out.completed, ops.len());
    let mut ram1 = Vec::new();
    let mut ram2 = Vec::new();
    let mut target = 0;
    for (dc, bytes) in &b.panel {
        if !*dc {
            if bytes == &vec![0x24] {
                target = 1;
            } else if bytes == &vec![0x26] {
                target = 2;
            } else {
                target = 0;
            }
        } else if target == 1 {
            ram1.extend_from_slice(bytes);
        } else if target == 2 {
            ram2.extend_from_slice(bytes);
        }
    }
    assert_eq!(ram1, b.mem[..PLANE_LEN].to_vec());
    assert_eq!(ram2, b.mem[PLANE_LEN..2 * PLANE_LEN].to_vec());
    assert_eq!(ram2[10 * 50 + 1], 0x20);
    assert_eq!(ram1[10 * 50 + 1], 0xFF);
}

#[test]
fn empty_flush_has_no_traffic() {
    let d = Display420Tri::new(Sram23k256::new());
    assert!(d.flush_caches().is_empty());
}

#[test]
fn stroked_line_lands_in_sram() {
    let mut b = Bench::new();
    let mut d = Display420Tri::new(Sram23k256::new());
    clear(&mut d, &mut b, TriColor::White);
    let mut job = LineDraw::stroke(0, 0, 9, 0, 1);
    loop {
        let ok = match job.current() {
            LineStep::Pixel(x, y) => draw(&mut d, &mut b, x, y, TriColor::Black),
            LineStep::FlushCaches => {
                flush(&mut d, &mut b);
                true
            }
            LineStep::Finished(all) => {
                assert!(all);
                break;
            }
        };
        job.advance(ok);
    }
    for x in 0..10 {
        assert_eq!(b.pixel(x, 0), (false, false));
    }
    assert_eq!(b.pixel(10, 0), (true, false));
    assert_eq!(b.pixel(0, 1), (true, false));
}

#[test]
fn later_writes_of_a_pixel_win() {
    let mut b = Bench::new();
    let mut d = Display420Tri::new(Sram23k256::new());
    clear(&mut d, &mut b, TriColor::White);
    for (x, y, c) in [(5, 5, TriColor::Red), (6, 5, TriColor::Black), (5, 5, TriColor::Black), (-1, 5, TriColor::Red)] {
        assert!(draw(&mut d, &mut b, x, y, c));
    }
    flush(&mut d, &mut b);
    assert_eq!(b.pixel(5, 5), (false, false));
    assert_eq!(b.pixel(6, 5), (false, false));
    assert_eq!(b.pixel(7, 5), (true, false));
}
