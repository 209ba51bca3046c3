use badge::bus::{BusyStep, BusyWait, BUSY_POLL_INTERVAL_MS, BUSY_TIMEOUT_MS};

#[test]
fn low_busy_releases_at_once() {
    let mut w = BusyWait::new();
    assert_eq!(w.step(false), BusyStep::Released);
    assert_eq!(w.waited_ms(), 0);
}

#[test]
fn polls_every_ten_ms() {
    let mut w = BusyWait::new();
    assert_eq!(w.step(true), BusyStep::PollAgainAfter(BUSY_POLL_INTERVAL_MS));
    assert_eq!(w.step(true), BusyStep::PollAgainAfter(10));
    assert_eq!(w.waited_ms(), 20);
    assert_eq!(w.step(false), BusyStep::Released);
}

#[test]
fn times_out_on_the_3000th_high_reading() {
    let mut w = BusyWait::new();
    for _ in 0..2999 {
        assert_eq!(w.step(true), BusyStep::PollAgainAfter(10));
    }
    assert_eq!(w.waited_ms(), 29_990);
    assert_eq!(w.step(true), BusyStep::TimeOutAfter(10));
    assert_eq!(w.waited_ms(), BUSY_TIMEOUT_MS);
}

#[test]
fn failed_busy_read_ends_the_wait() {
    let mut w = BusyWait::new();
    assert_eq!(w.after_read::<&str>(Ok(true)), Ok(BusyStep::PollAgainAfter(10)));
    assert_eq!(w.after_read(Err("pin")), Err("pin"));
    assert_eq!(w.waited_ms(), 10);
    assert_eq!(w.after_read::<&str>(Ok(false)), Ok(BusyStep::Released));
}
