use badge::bus::{BusOp, BusRun, FaultKind};

#[test]
fn run_stops_at_the_first_failure() {
    let mut run: BusRun<&str> = BusRun::new(4);
    assert_eq!(run.next(), Some(0));
    run.succeeded(None);
    assert_eq!(run.next(), Some(1));
    run.succeeded(Some(vec![1, 2]));
    assert_eq!(run.last_read(), &vec![1, 2]);
    assert_eq!(run.next(), Some(2));
    run.failed("overrun");
    assert_eq!(run.next(), None);
    let (outcome, result) = run.finish();
    assert_eq!(outcome.completed, 2);
    assert_eq!(outcome.read, vec![1, 2]);
    assert_eq!(result, Err("overrun"));
}

#[test]
fn run_collects_every_read() {
    let mut run: BusRun<()> = BusRun::new(3);
    run.succeeded(Some(vec![7]));
    run.succeeded(None);
    run.succeeded(Some(vec![8, 9]));
    assert_eq!(run.last_read(), &vec![8, 9]);
    assert_eq!(run.next(), None);
    let (outcome, result) = run.finish();
    assert_eq!(outcome.completed, 3);
    assert_eq!(outcome.read, vec![7, 8, 9]);
    assert_eq!(result, Ok(()));
}

#[test]
fn empty_run_is_over_at_once() {
    let run: BusRun<()> = BusRun::new(0);
    assert_eq!(run.next(), None);
    let (outcome, result) = run.finish();
    assert_eq!(outcome.completed, 0);
    assert!(outcome.read.is_empty());
    assert_eq!(result, Ok(()));
}

#[test]
fn fault_kinds() {
    assert_eq!(BusOp::PanelDataCommand(true).fault_kind(), FaultKind::Pin);
    assert_eq!(BusOp::PanelReset(false).fault_kind(), FaultKind::Pin);
    assert_eq!(BusOp::PanelWaitBusy.fault_kind(), FaultKind::Busy);
    assert_eq!(BusOp::DelayMs(10).fault_kind(), FaultKind::Never);
    assert_eq!(BusOp::PanelWrite(vec![0x12]).fault_kind(), FaultKind::Spi);
    assert_eq!(BusOp::PanelWriteRepeat(0xFF, 3).fault_kind(), FaultKind::Spi);
    assert_eq!(BusOp::PanelWriteLastRead.fault_kind(), FaultKind::Spi);
    assert_eq!(BusOp::SramWrite(vec![0x01, 0x40]).fault_kind(), FaultKind::Spi);
    assert_eq!(BusOp::SramWriteThen(vec![0x02], vec![1]).fault_kind(), FaultKind::Spi);
    assert_eq!(BusOp::SramWriteThenRepeat(vec![0x02], 0, 4).fault_kind(), FaultKind::Spi);
    assert_eq!(BusOp::SramWriteThenRead(vec![0x03], 4).fault_kind(), FaultKind::Spi);
}
