//! Bus operations: the unit of work that the drivers hand to the hardware.
//!
//! Every driver method in this crate decides *what* goes over the wires and
//! returns it as a list of [`BusOp`]s. Running them against real pins and SPI
//! devices, in order and stopping at the first failure, is the job of the
//! hardware layer.
use vstd::prelude::*;

verus! {

/// One operation on the badge's display bus.
///
/// The panel controller (SSD1683) and the frame SRAM (23K256) share one SPI
/// bus behind separate chip selects; `Panel*` operations address the
/// controller and its side-band pins, `Sram*` operations the memory.
#[derive(Debug, PartialEq, Eq)]
pub enum BusOp {
    /// Drive the controller's DC pin: `false` = low (command), `true` = high (data).
    PanelDataCommand(bool),
    /// Drive the controller's active-low RST pin.
    PanelReset(bool),
    /// One SPI write to the controller.
    PanelWrite(Vec<u8>),
    /// One SPI write to the controller of `count` copies of a byte.
    PanelWriteRepeat(u8, usize),
    /// One SPI write to the controller of the bytes returned by the most
    /// recent SRAM read.
    PanelWriteLastRead,
    /// Poll the controller's BUSY pin until it drops (see [`BusyWait`]).
    PanelWaitBusy,
    /// Block for this many milliseconds.
    DelayMs(u32),
    /// One SPI write to the SRAM.
    SramWrite(Vec<u8>),
    /// One SPI transaction to the SRAM: write a header, then write data.
    SramWriteThen(Vec<u8>, Vec<u8>),
    /// One SPI transaction to the SRAM: write a header, then `count` copies of a byte.
    SramWriteThenRepeat(Vec<u8>, u8, usize),
    /// One SPI transaction to the SRAM: write a header, then read `count` bytes.
    SramWriteThenRead(Vec<u8>, usize),
}

/// The meaning of a [`BusOp`]: the levels, delays and exact bytes on the wire.
pub enum BusAction {
    PanelDataCommand(bool),
    PanelReset(bool),
    PanelWrite(Seq<u8>),
    PanelWriteLastRead,
    PanelWaitBusy,
    DelayMs(u32),
    SramWrite(Seq<u8>),
    SramWriteThen(Seq<u8>, Seq<u8>),
    SramWriteThenRead(Seq<u8>, nat),
}

/// `count` copies of `byte`.
pub open spec fn repeated(byte: u8, count: nat) -> Seq<u8> {
    Seq::new(count, |_i: int| byte)
}

impl DeepView for BusOp {
    type V = BusAction;

    open spec fn deep_view(&self) -> BusAction {
        match self {
            BusOp::PanelDataCommand(level) => BusAction::PanelDataCommand(*level),
            BusOp::PanelReset(level) => BusAction::PanelReset(*level),
            BusOp::PanelWrite(bytes) => BusAction::PanelWrite(bytes@),
            BusOp::PanelWriteRepeat(byte, count) => BusAction::PanelWrite(repeated(*byte, *count as nat)),
            BusOp::PanelWriteLastRead => BusAction::PanelWriteLastRead,
            BusOp::PanelWaitBusy => BusAction::PanelWaitBusy,
            BusOp::DelayMs(ms) => BusAction::DelayMs(*ms),
            BusOp::SramWrite(bytes) => BusAction::SramWrite(bytes@),
            BusOp::SramWriteThen(header, data) => BusAction::SramWriteThen(header@, data@),
            BusOp::SramWriteThenRepeat(header, byte, count) => BusAction::SramWriteThen(header@, repeated(*byte, *count as nat)),
            BusOp::SramWriteThenRead(header, count) => BusAction::SramWriteThenRead(header@, *count as nat),
        }
    }
}

/// How far a run of bus operations got: how many operations went through
/// before the first failure (all of them if none failed), and the bytes the
/// SRAM reads among them returned, concatenated in order.
#[derive(Debug, PartialEq, Eq)]
pub struct BusOutcome {
    pub completed: usize,
    pub read: Vec<u8>,
}

/// Which error a failure of an operation is reported as.
#[derive(Debug, Clone, Copy, PartialEq, Eq, Structural)]
pub enum FaultKind {
    /// The SPI transfer failed: [`DriverError::Spi`].
    Spi,
    /// Driving the pin failed: [`DriverError::Pin`].
    Pin,
    /// Reading BUSY failed ([`DriverError::Pin`]) or BUSY stayed high
    /// ([`DriverError::BusyTimeout`]).
    Busy,
    /// The operation cannot fail.
    Never,
}

impl BusOp {
    pub open spec fn fault_kind_spec(&self) -> FaultKind {
        match self {
            BusOp::PanelDataCommand(_) | BusOp::PanelReset(_) => FaultKind::Pin,
            BusOp::PanelWaitBusy => FaultKind::Busy,
            BusOp::DelayMs(_) => FaultKind::Never,
            _ => FaultKind::Spi,
        }
    }

    /// How a failure of this operation is reported: pin operations as pin
    /// errors, transfers as SPI errors, the BUSY wait as a pin error or a
    /// timeout; a delay does not fail.
    pub fn fault_kind(&self) -> (k: FaultKind)
        ensures
            k == self.fault_kind_spec(),
    {
        match self {
            BusOp::PanelDataCommand(_) | BusOp::PanelReset(_) => FaultKind::Pin,
            BusOp::PanelWaitBusy => FaultKind::Busy,
            BusOp::DelayMs(_) => FaultKind::Never,
            _ => FaultKind::Spi,
        }
    }
}

/// The bookkeeping of running a list of operations: they are handed out
/// in order, one at a time; the first failure ends the run, and its error
/// is what the run returns. SRAM reads are collected as they come back.
pub struct BusRun<E> {
    total: usize,
    done: usize,
    error: Option<E>,
    read: Vec<u8>,
    last: Vec<u8>,
}

impl<E> BusRun<E> {
    /// How many operations the run has.
    pub closed spec fn total(self) -> nat {
        self.total as nat
    }

    /// How many went through.
    pub closed spec fn done(self) -> nat {
        self.done as nat
    }

    /// The error of the failed operation, if one failed.
    pub closed spec fn error(self) -> Option<E> {
        self.error
    }

    /// The bytes the SRAM reads returned so far, concatenated in order.
    pub closed spec fn read(self) -> Seq<u8> {
        self.read@
    }

    /// The bytes the most recent SRAM read returned (none before the first).
    pub closed spec fn last(self) -> Seq<u8> {
        self.last@
    }

    /// Whether the run is over: an operation failed, or all went through.
    pub open spec fn is_over(self) -> bool {
        self.error() is Some || self.done() >= self.total()
    }

    /// A run of `total` operations, none done yet.
    pub fn new(total: usize) -> (r: Self)
        ensures
            r.total() == total,
            r.done() == 0,
            r.error() is None,
            r.read() == Seq::<u8>::empty(),
            r.last() == Seq::<u8>::empty(),
    {
        BusRun { total, done: 0, error: None, read: Vec::new(), last: Vec::new() }
    }

    /// The index of the operation to perform next; `None` once the run is over.
    pub fn next(&self) -> (i: Option<usize>)
        ensures
            i == (if self.is_over() { None } else { Some(self.done() as usize) }),
    {
        if self.error.is_some() || self.done >= self.total {
            None
        } else {
            Some(self.done)
        }
    }

    /// The bytes of the most recent SRAM read.
    pub fn last_read(&self) -> (b: &Vec<u8>)
        ensures
            b@ == self.last(),
    {
        &self.last
    }

    /// The operation handed out went through; `returned` holds what it read
    /// from the SRAM, if it was a read.
    pub fn succeeded(&mut self, returned: Option<Vec<u8>>)
        requires
            !old(self).is_over(),
        ensures
            final(self).total() == old(self).total(),
            final(self).done() == old(self).done() + 1,
            final(self).error() is None,
            final(self).read() == match returned {
                Some(b) => old(self).read() + b@,
                None => old(self).read(),
            },
            final(self).last() == match returned {
                Some(b) => b@,
                None => old(self).last(),
            },
    {
        if let Some(bytes) = returned {
            let mut copy = bytes.clone();
            assert(copy@ =~= bytes@);
            self.read.append(&mut copy);
            self.last = bytes;
        }
        self.done = self.done + 1;
    }

    /// The operation handed out failed with `err`; the run is over.
    pub fn failed(&mut self, err: E)
        requires
            !old(self).is_over(),
        ensures
            final(self).total() == old(self).total(),
            final(self).done() == old(self).done(),
            final(self).error() == Some(err),
            final(self).read() == old(self).read(),
            final(self).last() == old(self).last(),
    {
        self.error = Some(err);
    }

    /// How far the run got and how it ended: `Ok` if every operation went
    /// through, else the error of the one that failed.
    pub fn finish(self) -> (r: (BusOutcome, Result<(), E>))
        requires
            self.is_over(),
        ensures
            r.0.completed == self.done(),
            r.0.read@ == self.read(),
            r.1 == match self.error() {
                Some(e) => Err::<(), E>(e),
                None => Ok(()),
            },
    {
        let BusRun { total: _, done, error, read, last: _ } = self;
        let result = match error {
            Some(e) => Err(e),
            None => Ok(()),
        };
        (BusOutcome { completed: done, read }, result)
    }
}

/// Appends `more` to `ops`.
pub fn append_ops(ops: &mut Vec<BusOp>, more: Vec<BusOp>)
    ensures
        final(ops).deep_view() == old(ops).deep_view() + more.deep_view(),
{
    let mut more = more;
    let ghost a = ops.deep_view();
    let ghost b = more.deep_view();
    ops.append(&mut more);
    assert(ops.deep_view() =~= a + b);
}

/// Why a run of bus operations stopped.
#[derive(Debug)]
pub enum DriverError<Spi, Pin> {
    /// An SPI transfer failed.
    Spi(Spi),
    /// Driving or reading a side-band pin failed.
    Pin(Pin),
    /// BUSY stayed high for [`BUSY_TIMEOUT_MS`].
    BusyTimeout,
}

/// Result of running a command's bus operations.
pub type CmdResult<SpiErr, DataCommandErr> = Result<(), DriverError<SpiErr, DataCommandErr>>;

/// How long to sleep between two reads of BUSY.
pub const BUSY_POLL_INTERVAL_MS: u32 = 10;
/// How long BUSY may stay high before the wait gives up.
pub const BUSY_TIMEOUT_MS: u32 = 30_000;

/// What to do after reading the BUSY pin.
#[derive(Debug, Clone, Copy, PartialEq, Eq, Structural)]
pub enum BusyStep {
    /// BUSY is low: the wait is over.
    Released,
    /// Sleep this many milliseconds, then read BUSY again.
    PollAgainAfter(u32),
    /// Sleep this many milliseconds, then give up with [`DriverError::BusyTimeout`].
    TimeOutAfter(u32),
}

/// The decisions of a wait for the controller's BUSY pin to drop: poll every
/// [`BUSY_POLL_INTERVAL_MS`], give up once [`BUSY_TIMEOUT_MS`] have passed.
pub struct BusyWait {
    waited_ms: u32,
}

/// `a + b`, or `u32::MAX` if that does not fit.
pub open spec fn saturating_add_u32(a: u32, b: u32) -> u32 {
    if a + b > u32::MAX { u32::MAX } else { (a + b) as u32 }
}

impl BusyWait {
    /// Milliseconds slept so far.
    pub closed spec fn waited(self) -> u32 {
        self.waited_ms
    }

    /// A wait that has not slept yet.
    pub fn new() -> (w: Self)
        ensures
            w.waited() == 0,
    {
        BusyWait { waited_ms: 0 }
    }

    /// Milliseconds slept so far.
    pub fn waited_ms(&self) -> (ms: u32)
        ensures
            ms == self.waited(),
    {
        self.waited_ms
    }

    /// The next step, given the level just read from BUSY.
    pub fn step(&mut self, busy_high: bool) -> (s: BusyStep)
        ensures
            !busy_high ==> s == BusyStep::Released && final(self).waited() == old(self).waited(),
            busy_high ==> final(self).waited() == saturating_add_u32(old(self).waited(), BUSY_POLL_INTERVAL_MS),
            busy_high ==> s == if final(self).waited() >= BUSY_TIMEOUT_MS {
                BusyStep::TimeOutAfter(BUSY_POLL_INTERVAL_MS)
            } else {
                BusyStep::PollAgainAfter(BUSY_POLL_INTERVAL_MS)
            },
    {
        if !busy_high {
            return BusyStep::Released;
        }
        self.waited_ms = self.waited_ms.saturating_add(BUSY_POLL_INTERVAL_MS);
        if self.waited_ms >= BUSY_TIMEOUT_MS {
            BusyStep::TimeOutAfter(BUSY_POLL_INTERVAL_MS)
        } else {
            BusyStep::PollAgainAfter(BUSY_POLL_INTERVAL_MS)
        }
    }

    /// The next step, given what reading BUSY returned: a failed read ends
    /// the wait with its error, and nothing is slept for it.
    pub fn after_read<E>(&mut self, read: Result<bool, E>) -> (s: Result<BusyStep, E>)
        ensures
            match read {
                Err(e) => s == Err::<BusyStep, E>(e) && final(self).waited() == old(self).waited(),
                Ok(high) => s matches Ok(step) && {
                    &&& !high ==> step == BusyStep::Released && final(self).waited() == old(self).waited()
                    &&& high ==> final(self).waited() == saturating_add_u32(old(self).waited(), BUSY_POLL_INTERVAL_MS)
                    &&& high ==> step == if final(self).waited() >= BUSY_TIMEOUT_MS {
                        BusyStep::TimeOutAfter(BUSY_POLL_INTERVAL_MS)
                    } else {
                        BusyStep::PollAgainAfter(BUSY_POLL_INTERVAL_MS)
                    }
                },
            },
    {
        match read {
            Err(e) => Err(e),
            Ok(high) => Ok(self.step(high)),
        }
    }
}

/// Milliseconds slept after `k` high readings of BUSY.
pub open spec fn waited_after(k: nat) -> u32
    decreases k,
{
    if k == 0 { 0 } else { saturating_add_u32(waited_after((k - 1) as nat), BUSY_POLL_INTERVAL_MS) }
}

/// The wait gives up on the 3000th consecutive high reading of BUSY, after
/// 30 s of sleeping, and not before.
pub proof fn lemma_busy_timeout(k: nat)
    requires
        1 <= k <= 3000,
    ensures
        waited_after(k) == 10 * k,
        (waited_after(k) >= BUSY_TIMEOUT_MS) == (k == 3000),
    decreases k,
{
    if k > 1 {
        lemma_busy_timeout((k - 1) as nat);
    } else {
        assert(waited_after(0) == 0);
    }
}

} // verus!
