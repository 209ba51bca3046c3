use badge::bus::{BusOp, BusOutcome};
use badge::color::BinaryColor;
use badge::display420mono::{Display420Mono, BUF_LEN};
use badge::sram23k256::{Sram23k256, SRAM_SIZE};
use badge::ssd1683::Ssd1683;

struct Sram {
    mem: Vec<u8>,
    panel: Vec<(bool, Vec<u8>)>,
    dc: bool,
    last: Vec<u8>,
    fail_at: Option<usize>,
}

impl Sram {
    fn new() -> Self {
        Sram { mem: vec![0x33; SRAM_SIZE], panel: Vec::new(), dc: false, last: Vec::new(), fail_at: None }
    }

    fn run(&mut self, ops: &[BusOp]) -> BusOutcome {
        let mut read = Vec::new();
        for (i, op) in ops.iter().enumerate() {
            if self.fail_at == Some(i) {
                return BusOutcome { completed: i, read };
            }
            match op {
                BusOp::PanelDataCommand(l) => self.dc = *l,
                BusOp::PanelWrite(b) => self.panel.push((self.dc, b.clone())),
                BusOp::PanelWriteLastRead => self.panel.push((self.dc, self.last.clone())),
                BusOp::SramWrite(w) => {
                    let a = (w[1] as usize) << 8 | w[2] as usize;
                    self.mem[a] = w[3];
                }
                BusOp::SramWriteThenRepeat(h, b, n) => {
                    let a = (h[1] as usize) << 8 | h[2] as usize;
                    for x in &mut self.mem[a..a + n] {
                        *x = *b;
                    }
                }
                BusOp::SramWriteThenRead(h, n) => {
                    let a = (h[1] as usize) << 8 | h[2] as usize;
                    self.last = self.mem[a..a + n].to_vec();
                    read.extend_from_slice(&self.last);
                }
                _ => {}
            }
        }
        BusOutcome { completed: ops.len(), read }
    }

    fn ink(&self, x: usize, y: usize) -> bool {
        (self.mem[y * 50 + x / 8] >> (7 - x % 8)) & 1 == 0
    }
}

fn draw(d: &mut Display420Mono, s: &mut Sram, x: i32, y: i32, c: BinaryColor) {
    let ops = d.write_pixel(x, y, c);
    let out = s.run(&ops);
    d.write_pixel_done(x, y, c, &out);
}

fn flush(d: &mut Display420Mono, s: &mut Sram) {
    let ops = d.flush_cache();
    let out = s.run(&ops);
    d.flush_cache_done(&out);
}

fn clear(d: &mut Display420Mono, s: &mut Sram, c: BinaryColor) {
    let ops = d.clear_to(c);
    let out = s.run(&ops);
    d.clear_to_done(c, &out);
}

#[test]
fn clear_to_paper_and_ink() {
    let mut s = Sram::new();
    let mut d = Display420Mono::new(Sram23k256::new());
    clear(&mut d, &mut s, BinaryColor::Off);
    assert_eq!(BUF_LEN, 15000);
    assert!(s.mem[..BUF_LEN].iter().all(|&b| b == 0xFF));
    assert!(s.mem[BUF_LEN..].iter().all(|&b| b == 0x33));
    clear(&mut d, &mut s, BinaryColor::On);
    assert!(s.mem[..BUF_LEN].iter().all(|&b| b == 0x00));
}

#[test]
fn diagonal_is_inked() {
    let mut s = Sram::new();
    let mut d = Display420Mono::new(Sram23k256::new());
    clear(&mut d, &mut s, BinaryColor::Off);
    for i in 0..300 {
        draw(&mut d, &mut s, i, i, BinaryColor::On);
    }
    flush(&mut d, &mut s);
    for i in 0..300 {
        assert!(s.ink(i, i));
    }
    assert!(!s.ink(1, 0));
    assert!(!s.ink(0, 1));
    draw(&mut d, &mut s, 5, 5, BinaryColor::Off);
    flush(&mut d, &mut s);
    assert!(!s.ink(5, 5));
}

#[test]
fn failed_read_after_writeback_cleans_the_cache() {
    let mut s = Sram::new();
    let mut d = Display420Mono::new(Sram23k256::new());
    clear(&mut d, &mut s, BinaryColor::Off);
    draw(&mut d, &mut s, 0, 0, BinaryColor::On);
    s.fail_at = Some(1);
    draw(&mut d, &mut s, 200, 100, BinaryColor::On);
    s.fail_at = None;
    // the write-back went through: nothing left to flush
    assert!(d.flush_cache().is_empty());
    assert!(s.ink(0, 0));
    assert!(!s.ink(200, 100));
}

#[test]
fn flush_to_panel_streams_the_plane_into_ram1() {
    let mut s = Sram::new();
    let mut d = Display420Mono::new(Sram23k256::new());
    let epd = Ssd1683::new();
    clear(&mut d, &mut s, BinaryColor::Off);
    draw(&mut d, &mut s, 399, 299, BinaryColor::On);
    let ops = d.flush_to_panel(&epd);
    let out = s.run(&ops);
    d.flush_to_panel_done(&out);
    let mut ram1 = Vec::new();
    let mut on = false;
    for (dc, bytes) in &s.panel {
        if !*dc {
            on = bytes == &vec![0x24];
        } else if on {
            ram1.extend_from_slice(bytes);
        }
    }
    assert_eq!(ram1.len(), BUF_LEN);
    assert_eq!(ram1[BUF_LEN - 1], 0xFE);
    assert_eq!(ram1, s.mem[..BUF_LEN].to_vec());
}
