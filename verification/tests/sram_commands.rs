use badge::bus::BusOp;
use badge::sram23k256::{Sram23k256, READ, SEQUENTIAL_MODE, WRITE, WRITE_STATUS};

#[test]
fn instruction_values() {
    assert_eq!(WRITE, 0x02);
    assert_eq!(READ, 0x03);
    assert_eq!(WRITE_STATUS, 0x01);
    assert_eq!(SEQUENTIAL_MODE, 0x40);
}

#[test]
fn sequential_mode() {
    let s = Sram23k256::new();
    assert_eq!(s.set_sequential_mode(), vec![BusOp::SramWrite(vec![0x01, 0x40])]);
}

#[test]
fn byte_commands_put_the_address_big_endian() {
    let s = Sram23k256::new();
    assert_eq!(s.write_byte(0x1234, 0xAB), vec![BusOp::SramWrite(vec![0x02, 0x12, 0x34, 0xAB])]);
    assert_eq!(s.read_byte(0x3A98), vec![BusOp::SramWriteThenRead(vec![0x03, 0x3A, 0x98], 1)]);
}

#[test]
fn bulk_commands() {
    let s = Sram23k256::new();
    assert_eq!(
        s.write_bulk(256, &[1, 2, 3]),
        vec![BusOp::SramWriteThen(vec![0x02, 0x01, 0x00], vec![1, 2, 3])]
    );
    assert_eq!(s.write_repeat(0, 0xFF, 256), vec![BusOp::SramWriteThenRepeat(vec![0x02, 0, 0], 0xFF, 256)]);
    assert_eq!(s.read_bulk(15000, 152), vec![BusOp::SramWriteThenRead(vec![0x03, 0x3A, 0x98], 152)]);
}

fn apply(mem: &mut [u8], ops: &[BusOp]) -> Vec<u8> {
    let mut read = Vec::new();
    for op in ops {
        match op {
            BusOp::SramWrite(w) if w[0] == 0x02 => {
                let a = (w[1] as usize) << 8 | w[2] as usize;
                mem[a..a + w.len() - 3].copy_from_slice(&w[3..]);
            }
            BusOp::SramWriteThen(h, d) if h[0] == 0x02 => {
                let a = (h[1] as usize) << 8 | h[2] as usize;
                mem[a..a + d.len()].copy_from_slice(d);
            }
            BusOp::SramWriteThenRead(h, n) if h[0] == 0x03 => {
                let a = (h[1] as usize) << 8 | h[2] as usize;
                read.extend_from_slice(&mem[a..a + n]);
            }
            _ => {}
        }
    }
    read
}

#[test]
fn a_read_gives_back_what_was_written() {
    let s = Sram23k256::new();
    let mut mem = vec![0u8; 32768];
    apply(&mut mem, &s.write_bulk(0x7F00, &[9, 8, 7, 6]));
    assert_eq!(apply(&mut mem, &s.read_bulk(0x7F00, 4)), vec![9, 8, 7, 6]);
    apply(&mut mem, &s.write_byte(0x7F02, 0x55));
    assert_eq!(apply(&mut mem, &s.read_byte(0x7F02)), vec![0x55]);
    assert_eq!(apply(&mut mem, &s.read_bulk(0x7F00, 4)), vec![9, 8, 0x55, 6]);
}
