use badge::bus::BusOp;
use badge::commands::{BorderWaveform, DataEntryMode, TemperatureSource, UpdateSequence};
use badge::opcode;
use badge::ssd1683::{Ssd1683, HEIGHT, PLANE_LEN, WIDTH};

fn cmd(c: u8) -> Vec<BusOp> {
    vec![BusOp::PanelDataCommand(false), BusOp::PanelWrite(vec![c])]
}

fn data(d: &[u8]) -> Vec<BusOp> {
    vec![BusOp::PanelDataCommand(true), BusOp::PanelWrite(d.to_vec())]
}

fn cmd_data(c: u8, d: &[u8]) -> Vec<BusOp> {
    let mut v = cmd(c);
    v.extend(data(d));
    v
}

#[test]
fn opcode_values() {
    assert_eq!(opcode::DEEP_SLEEP, 0x10);
    assert_eq!(opcode::DATA_ENTRY_MODE, 0x11);
    assert_eq!(opcode::SW_RESET, 0x12);
    assert_eq!(opcode::TEMP_CONTROL, 0x18);
    assert_eq!(opcode::MASTER_ACTIVATE, 0x20);
    assert_eq!(opcode::DISPLAY_UPDATE_CONTROL_1, 0x21);
    assert_eq!(opcode::DISPLAY_UPDATE_CONTROL_2, 0x22);
    assert_eq!(opcode::WRITE_RAM_BW, 0x24);
    assert_eq!(opcode::WRITE_RAM_RED, 0x26);
    assert_eq!(opcode::WRITE_BORDER, 0x3C);
    assert_eq!(opcode::SET_RAM_X_RANGE, 0x44);
    assert_eq!(opcode::SET_RAM_Y_RANGE, 0x45);
    assert_eq!(opcode::SET_RAM_X_COUNTER, 0x4E);
    assert_eq!(opcode::SET_RAM_Y_COUNTER, 0x4F);
}

#[test]
fn parameter_bytes() {
    assert_eq!(DataEntryMode::IncrementXIncrementYXMajor.byte(), 0x03);
    assert_eq!(DataEntryMode::DecrementXIncrementYXMajor.byte(), 0x01);
    assert_eq!(DataEntryMode::IncrementXDecrementYXMajor.byte(), 0x02);
    assert_eq!(DataEntryMode::DecrementXDecrementYXMajor.byte(), 0x00);
    assert_eq!(TemperatureSource::Internal.byte(), 0x80);
    assert_eq!(TemperatureSource::ExternalI2c.byte(), 0x48);
    assert_eq!(BorderWaveform::Default.byte(), 0x05);
    assert_eq!(UpdateSequence::Full.byte(), 0xF7);
}

#[test]
fn command_and_data_framing() {
    let epd = Ssd1683::new();
    assert_eq!(epd.command(0x12), cmd(0x12));
    assert_eq!(epd.command_only(0x20), cmd(0x20));
    assert_eq!(epd.data(&[1, 2, 3]), data(&[1, 2, 3]));
    assert_eq!(epd.write_data(&[9]), data(&[9]));
    assert_eq!(epd.command_with_data(0x11, &[0x03]), cmd_data(0x11, &[0x03]));
    assert_eq!(epd.start_write_ram1(), cmd(0x24));
    assert_eq!(epd.start_write_ram2(), cmd(0x26));
}

#[test]
fn full_panel_window_bytes() {
    let epd = Ssd1683::new();
    let mut want = cmd_data(0x44, &[0, 49]);
    want.extend(cmd_data(0x45, &[0x2B, 0x01, 0x2B, 0x01]));
    // y range 299 = 0x012B little-endian, x range 0..399 in bytes 0..49
    let got = epd.set_ram_window(0, 299, WIDTH - 1, HEIGHT - 1);
    assert_eq!(got, want);
    let mut origin = cmd_data(0x44, &[0, 49]);
    origin.extend(cmd_data(0x45, &[0, 0, 0x2B, 0x01]));
    assert_eq!(epd.set_ram_window(0, 0, WIDTH - 1, HEIGHT - 1), origin);
}

#[test]
fn ram_address_bytes() {
    let epd = Ssd1683::new();
    let mut want = cmd_data(0x4E, &[37]);
    want.extend(cmd_data(0x4F, &[0x2C, 0x01]));
    assert_eq!(epd.set_ram_address(300, 300), want);
}

#[test]
fn reset_and_lifecycle_sequences() {
    let epd = Ssd1683::new();
    assert_eq!(
        epd.reset(),
        vec![
            BusOp::PanelReset(true),
            BusOp::DelayMs(10),
            BusOp::PanelReset(false),
            BusOp::DelayMs(10),
            BusOp::PanelReset(true),
            BusOp::DelayMs(10),
            BusOp::PanelWaitBusy,
        ]
    );
    let mut sw = cmd(0x12);
    sw.push(BusOp::PanelWaitBusy);
    assert_eq!(epd.software_reset(), sw);
    let mut refresh = cmd_data(0x22, &[0xF7]);
    refresh.extend(cmd(0x20));
    refresh.push(BusOp::PanelWaitBusy);
    assert_eq!(epd.refresh(), refresh);
    let mut sleep = cmd_data(0x10, &[0x01]);
    sleep.push(BusOp::DelayMs(100));
    assert_eq!(epd.sleep(), sleep);
    assert_eq!(epd.wait_busy(), vec![BusOp::PanelWaitBusy]);
    assert_eq!(epd.set_border_waveform(BorderWaveform::Default), cmd_data(0x3C, &[0x05]));
    assert_eq!(epd.set_temperature_source(TemperatureSource::Internal), cmd_data(0x18, &[0x80]));
    assert_eq!(epd.set_data_entry_mode(DataEntryMode::DecrementXIncrementYXMajor), cmd_data(0x11, &[0x01]));
}

#[test]
fn init_sequence() {
    let epd = Ssd1683::new();
    let mut want = epd.reset();
    want.extend(epd.software_reset());
    want.extend(cmd_data(0x11, &[0x03]));
    want.extend(cmd_data(0x21, &[0x40, 0x00]));
    want.extend(cmd_data(0x3C, &[0x05]));
    want.extend(cmd_data(0x18, &[0x80]));
    want.extend(epd.set_ram_window(0, 0, 399, 299));
    want.extend(epd.set_ram_address(0, 0));
    assert_eq!(epd.init(), want);
}

#[test]
fn flash_test_fills_both_planes() {
    let epd = Ssd1683::new();
    let ops = epd.flash_test(0x00, 0xFF);
    // window + address + ram1
    let mut head = epd.set_ram_window(0, 0, 399, 299);
    head.extend(epd.set_ram_address(0, 0));
    head.extend(epd.start_write_ram1());
    assert_eq!(&ops[..head.len()], &head[..]);
    let mut bw = 0usize;
    let mut red = 0usize;
    let mut plane = 0;
    let mut chunks = 0;
    for op in &ops {
        match op {
            BusOp::PanelWrite(b) if b == &vec![0x26u8] => plane = 2,
            BusOp::PanelWrite(b) if b == &vec![0x24u8] => plane = 1,
            BusOp::PanelWriteRepeat(byte, n) => {
                assert!(*n <= 256);
                chunks += 1;
                if plane == 1 {
                    assert_eq!(*byte, 0x00);
                    bw += n;
                } else {
                    assert_eq!(*byte, 0xFF);
                    red += n;
                }
            }
            _ => {}
        }
    }
    assert_eq!(bw, PLANE_LEN);
    assert_eq!(red, PLANE_LEN);
    assert_eq!(chunks, 2 * 59);
    assert_eq!(&ops[ops.len() - 7..], &epd.refresh()[..]);
}
