use badge::bus::{BusOp, DriverError};
use badge::display::{debug_flash_schedule, debug_ops, debug_setup, Failed, DEBUG_ROUNDS};
use badge::ssd1683::Ssd1683;

#[test]
fn failed_messages() {
    assert_eq!(Failed::from_driver_error(DriverError::BusyTimeout).0, "Busy Timeout");
    assert_eq!(Failed::from_driver_error(DriverError::Spi("Overrun".to_string())).0, "Overrun");
    assert_eq!(Failed::from_driver_error(DriverError::Pin("Floating".to_string())).0, "Floating");
}

#[test]
fn debug_setup_ends_with_update_control_1() {
    let epd = Ssd1683::new();
    let ops = debug_setup(&epd);
    let n = ops.len();
    assert_eq!(
        &ops[n - 4..],
        &[
            BusOp::PanelDataCommand(false),
            BusOp::PanelWrite(vec![0x21]),
            BusOp::PanelDataCommand(true),
            BusOp::PanelWrite(vec![0x00, 0x00]),
        ]
    );
    assert_eq!(&ops[..7], &epd.reset()[..]);
    assert!(ops.contains(&BusOp::PanelWrite(vec![0x3C])));
    assert!(ops.contains(&BusOp::PanelWrite(vec![0x80])));
}

#[test]
fn debug_schedule_cycles_the_three_codes() {
    let s = debug_flash_schedule();
    assert_eq!(s.len(), 3 * DEBUG_ROUNDS);
    assert_eq!(&s[..3], &[(0xFF, 0x00), (0x00, 0x00), (0xFF, 0xFF)]);
    assert_eq!(s[59], (0xFF, 0xFF));
}

#[test]
fn debug_routine_ops() {
    let epd = Ssd1683::new();
    let mut want = vec![BusOp::DelayMs(3000)];
    want.extend(debug_setup(&epd));
    for (bw, red) in debug_flash_schedule() {
        want.extend(epd.flash_test(bw, red));
        want.push(BusOp::DelayMs(3000));
    }
    let ops = debug_ops(&epd);
    assert_eq!(ops.len(), want.len());
    assert!(ops == want);
    assert_eq!(ops.iter().filter(|op| **op == BusOp::PanelWrite(vec![0x20])).count(), 60);
}
