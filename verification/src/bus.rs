//! The state that the host keeps about the bus, and the decisions that rest on it.

use vstd::prelude::*;

use crate::consts::{
    BACKPLANE_ADDRESS_MASK, FUNC_BACKPLANE, FUNC_BUS, INC_ADDR, READ,
    REG_BACKPLANE_BACKPLANE_ADDRESS_HIGH, REG_BACKPLANE_BACKPLANE_ADDRESS_LOW,
    REG_BACKPLANE_BACKPLANE_ADDRESS_MID, SPI_STATUS_REGISTER, STATUS_DATA_NOT_AVAILABLE,
    STATUS_F2_PKT_AVAILABLE, WRITE,
};
use crate::frame;
use crate::frame::cmd_word;
use crate::io::{Action, Notice, Tally};
use crate::oplog::{LogState, OpLog};
use crate::util::Throttle;

verus! {

/// How many times a read that the device could not serve is issued again before it is given up.
pub const READ_RETRIES: usize = 3;

/// Stands for a window that is not known. It has bits below the window size, which no window has.
pub const WINDOW_UNKNOWN: u32 = 0xAAAA_AAAA;

/// What to do about the data that a read brought.
#[derive(Clone, Copy, PartialEq, Eq, Structural, Debug)]
pub enum Decision {
    /// The data is trustworthy.
    Trust,
    /// The data is padding: clear the latched interrupt and ask again.
    Retry,
    /// The data is padding, and the device has been asked often enough.
    GiveUp,
}

/// One of the three registers that hold the backplane window.
#[derive(Clone, Copy, PartialEq, Eq, Structural, Debug)]
pub enum WindowByte {
    High,
    Mid,
    Low,
}

/// The start of the backplane window that holds `addr`.
pub open spec fn window_of(addr: u32) -> u32 {
    addr & !BACKPLANE_ADDRESS_MASK
}

/// The part of a window that one of the three registers holds.
pub open spec fn window_part(window: u32, b: WindowByte) -> u8 {
    match b {
        WindowByte::High => (window >> 24) as u8,
        WindowByte::Mid => (window >> 16) as u8,
        WindowByte::Low => (window >> 8) as u8,
    }
}

/// Whether a window register has to be written to go from the window `cached` to the one of
/// `addr`. From an unknown window every register has to be.
pub open spec fn stale(cached: u32, addr: u32, b: WindowByte) -> bool {
    cached == WINDOW_UNKNOWN || window_part(window_of(addr), b) != window_part(cached, b)
}

/// The write of `len` bytes of `val` to a register.
pub open spec fn register_write(func: u8, addr: u32, val: u32, len: u32) -> Action {
    Action::Write { cmd: frame::command(WRITE, INC_ADDR, func, addr, len), val }
}

/// The read of the bus status register.
pub open spec fn status_read() -> Action {
    Action::Read { cmd: frame::command(READ, INC_ADDR, FUNC_BUS, SPI_STATUS_REGISTER, 4), words: 1 }
}

/// The read of the bus status register. It is on the bus function: it needs neither the backplane
/// nor the window.
pub fn read_status() -> (r: Action)
    ensures
        r == status_read(),
{
    Action::Read { cmd: cmd_word(READ, INC_ADDR, FUNC_BUS, SPI_STATUS_REGISTER, 4), words: 1 }
}

/// The write of `len` bytes of `val` to a register.
pub fn writen(func: u8, addr: u32, val: u32, len: u32) -> (r: Action)
    ensures
        r == register_write(func, addr, val, len),
{
    Action::Write { cmd: cmd_word(WRITE, INC_ADDR, func, addr, len), val }
}

impl WindowByte {
    /// The address of the register.
    pub open spec fn register(self) -> u32 {
        match self {
            WindowByte::High => REG_BACKPLANE_BACKPLANE_ADDRESS_HIGH,
            WindowByte::Mid => REG_BACKPLANE_BACKPLANE_ADDRESS_MID,
            WindowByte::Low => REG_BACKPLANE_BACKPLANE_ADDRESS_LOW,
        }
    }

    /// The register that is written after this one.
    pub open spec fn after(self) -> Option<WindowByte> {
        match self {
            WindowByte::High => Some(WindowByte::Mid),
            WindowByte::Mid => Some(WindowByte::Low),
            WindowByte::Low => None,
        }
    }

    /// The write that brings this register to the window of `addr`.
    pub open spec fn write_for(self, addr: u32) -> Action {
        register_write(
            FUNC_BACKPLANE,
            self.register(),
            window_part(window_of(addr), self) as u32,
            1,
        )
    }

    /// The write that brings this register to the window of `addr`.
    pub fn write(self, addr: u32) -> (r: Action)
        ensures
            r == self.write_for(addr),
    {
        let window: u32 = addr & !BACKPLANE_ADDRESS_MASK;
        match self {
            WindowByte::High => writen(
                FUNC_BACKPLANE,
                REG_BACKPLANE_BACKPLANE_ADDRESS_HIGH,
                #[verifier::truncate] ((window >> 24) as u8) as u32,
                1,
            ),
            WindowByte::Mid => writen(
                FUNC_BACKPLANE,
                REG_BACKPLANE_BACKPLANE_ADDRESS_MID,
                #[verifier::truncate] ((window >> 16) as u8) as u32,
                1,
            ),
            WindowByte::Low => writen(
                FUNC_BACKPLANE,
                REG_BACKPLANE_BACKPLANE_ADDRESS_LOW,
                #[verifier::truncate] ((window >> 8) as u8) as u32,
                1,
            ),
        }
    }

    /// The register that is written after this one.
    pub fn next(self) -> (r: Option<WindowByte>)
        ensures
            r == self.after(),
    {
        match self {
            WindowByte::High => Some(WindowByte::Mid),
            WindowByte::Mid => Some(WindowByte::Low),
            WindowByte::Low => None,
        }
    }
}

/// The first register, from `from` on, that has to be written to go from the window `cached` to
/// the one of `addr`. The registers are taken from the highest to the lowest.
pub open spec fn first_stale(cached: u32, addr: u32, from: Option<WindowByte>) -> Option<
    WindowByte,
> {
    let low = if stale(cached, addr, WindowByte::Low) {
        Some(WindowByte::Low)
    } else {
        None
    };
    let mid = if stale(cached, addr, WindowByte::Mid) {
        Some(WindowByte::Mid)
    } else {
        low
    };
    match from {
        Some(WindowByte::High) => if stale(cached, addr, WindowByte::High) {
            Some(WindowByte::High)
        } else {
            mid
        },
        Some(WindowByte::Mid) => mid,
        Some(WindowByte::Low) => low,
        None => None,
    }
}

/// What the host knows about the bus.
#[verifier::ext_equal]
pub struct BusState {
    /// The backplane window that the device is at, as far as the host knows.
    pub window: u32,
    /// The status word that was read last.
    pub status: u32,
    /// The recorded transactions.
    pub log: LogState,
    /// Reads the device could not serve, however many times they were issued.
    pub starved: Throttle,
    /// Reads the device could not serve at first but answered when asked again.
    pub reissued: Throttle,
    /// WLAN read frames terminated because the device could not serve them.
    pub f2_aborted: Throttle,
    /// Multi-byte backplane reads issued.
    pub bp_reads: u32,
    /// Of those, the ones a WLAN packet arrived during.
    pub bp_races: u32,
    /// Of those races, the ones the device could not serve.
    pub bp_race_losses: u32,
    /// Paces the running tally of the above.
    pub race_report: Throttle,
}

impl BusState {
    /// The state of a bus that has not been used.
    pub open spec fn initial() -> BusState {
        BusState {
            window: WINDOW_UNKNOWN,
            status: 0,
            log: LogState::empty(),
            starved: Throttle { seen: 0, every: 1024 },
            reissued: Throttle { seen: 0, every: 1024 },
            f2_aborted: Throttle { seen: 0, every: 1024 },
            bp_reads: 0,
            bp_races: 0,
            bp_race_losses: 0,
            race_report: Throttle { seen: 0, every: 64 },
        }
    }

    /// What every operation keeps: lost races are races, races are reads, every race was counted
    /// for the report, and the rates of the reports stay as they were set.
    pub open spec fn valid(self) -> bool {
        &&& self.bp_race_losses <= self.bp_races <= self.bp_reads
        &&& self.race_report.seen == self.bp_races
        &&& self.starved.every == 1024
        &&& self.reissued.every == 1024
        &&& self.f2_aborted.every == 1024
        &&& self.race_report.every == 64
    }

    /// The state after a status word was read.
    pub open spec fn with_status(self, status: u32) -> BusState {
        BusState { status, ..self }
    }

    /// The state after a transaction was recorded.
    pub open spec fn logged(self, cmd: u32, status: u32) -> BusState {
        BusState { log: self.log.record(cmd, status), ..self }
    }

    /// The state once the device is at the window of `addr`.
    pub open spec fn at_window(self, addr: u32) -> BusState {
        BusState { window: window_of(addr), ..self }
    }

    /// Whether a packet arrived between two status words.
    pub open spec fn arrived(before: u32, after: u32) -> bool {
        before & STATUS_F2_PKT_AVAILABLE == 0 && after & STATUS_F2_PKT_AVAILABLE != 0
    }

    /// There is room to count one more multi-byte backplane read.
    pub open spec fn can_account(self) -> bool {
        self.bp_reads < u32::MAX
    }

    /// The state after a multi-byte backplane read with the given status words before and after
    /// it was counted.
    pub open spec fn after_race(self, before: u32, after: u32) -> BusState {
        let reads = (self.bp_reads + 1) as u32;
        if Self::arrived(before, after) {
            BusState {
                bp_reads: reads,
                bp_races: (self.bp_races + 1) as u32,
                bp_race_losses: if after & STATUS_DATA_NOT_AVAILABLE != 0 {
                    (self.bp_race_losses + 1) as u32
                } else {
                    self.bp_race_losses
                },
                race_report: self.race_report.counted(),
                ..self
            }
        } else {
            BusState { bp_reads: reads, ..self }
        }
    }

    /// The tally that is due after that read, if one is.
    pub open spec fn race_tally(self, before: u32, after: u32) -> Option<Tally> {
        let next = self.after_race(before, after);
        if Self::arrived(before, after) && self.race_report.report() is Some {
            Some(
                Tally {
                    reads: next.bp_reads,
                    races: next.bp_races,
                    losses: next.bp_race_losses,
                },
            )
        } else {
            None
        }
    }

    /// What to do about the data of a read on `func`, of which this was attempt `attempt`. Only
    /// the backplane asks again: the bus registers are always readable, and asking again on the
    /// WLAN function would clock the rest of a frame that has already begun.
    pub open spec fn decision(self, func: u8, attempt: usize) -> Decision {
        if func != FUNC_BACKPLANE || self.status & STATUS_DATA_NOT_AVAILABLE == 0 {
            Decision::Trust
        } else if attempt < READ_RETRIES {
            Decision::Retry
        } else {
            Decision::GiveUp
        }
    }

    /// There is room to count what the decision counts.
    pub open spec fn can_reissue(self, func: u8, attempt: usize) -> bool {
        match self.decision(func, attempt) {
            Decision::Trust => attempt > 0 ==> self.reissued.ready(),
            Decision::Retry => true,
            Decision::GiveUp => self.starved.ready(),
        }
    }

    /// The state after the decision: reads that needed asking twice and reads that stayed
    /// unanswered are counted.
    pub open spec fn after_reissue(self, func: u8, attempt: usize) -> BusState {
        match self.decision(func, attempt) {
            Decision::Trust => if attempt > 0 {
                BusState { reissued: self.reissued.counted(), ..self }
            } else {
                self
            },
            Decision::Retry => self,
            Decision::GiveUp => BusState { starved: self.starved.counted(), ..self },
        }
    }

    /// What the decision is reported as, if it is one of those that are.
    pub open spec fn reissue_notice(self, func: u8, attempt: usize) -> Option<Notice> {
        match self.decision(func, attempt) {
            Decision::Trust => match self.reissued.report() {
                Some(count) if attempt > 0 => Some(Notice::Answered { func, attempt, count }),
                _ => None,
            },
            Decision::Retry => None,
            Decision::GiveUp => match self.starved.report() {
                Some(count) => Some(Notice::Unanswered { func, status: self.status, count }),
                None => None,
            },
        }
    }

    /// The state after a WLAN read frame was terminated.
    pub open spec fn after_abort(self) -> BusState {
        BusState { f2_aborted: self.f2_aborted.counted(), ..self }
    }

    /// What the termination is reported as, if it is one of those that are.
    pub open spec fn abort_notice(self) -> Option<Notice> {
        match self.f2_aborted.report() {
            Some(count) => Some(Notice::Dropped { count }),
            None => None,
        }
    }
}

/// The gSPI bus, with the power pin and the SPI link that it is driven through.
pub struct SpiBus<PWR, SPI> {
    pub pwr: PWR,
    pub spi: SPI,
    backplane_window: u32,
    status: u32,
    ops: OpLog,
    starved: Throttle,
    reissued: Throttle,
    f2_aborted: Throttle,
    bp_reads: u32,
    bp_races: u32,
    bp_race_losses: u32,
    race_report: Throttle,
}

impl<PWR, SPI> View for SpiBus<PWR, SPI> {
    type V = BusState;

    closed spec fn view(&self) -> BusState {
        BusState {
            window: self.backplane_window,
            status: self.status,
            log: self.ops@,
            starved: self.starved,
            reissued: self.reissued,
            f2_aborted: self.f2_aborted,
            bp_reads: self.bp_reads,
            bp_races: self.bp_races,
            bp_race_losses: self.bp_race_losses,
            race_report: self.race_report,
        }
    }
}

impl<PWR, SPI> SpiBus<PWR, SPI> {
    /// What every operation keeps.
    pub closed spec fn wf(&self) -> bool {
        &&& self.ops.wf()
        &&& self@.valid()
    }

    /// The power pin and the SPI link.
    pub closed spec fn hardware(&self) -> (PWR, SPI) {
        (self.pwr, self.spi)
    }

    /// The pin and the link are those of `other`.
    pub open spec fn same_hardware(&self, other: &Self) -> bool {
        self.hardware() == other.hardware()
    }

    /// Every operation keeps the counts in order: lost races are races, races are reads.
    pub proof fn law_counts_in_order(&self)
        requires
            self.wf(),
        ensures
            self@.valid(),
            self@.bp_race_losses <= self@.bp_races <= self@.bp_reads,
    {
    }

    /// A bus that has not been used yet.
    pub fn new(pwr: PWR, spi: SPI) -> (r: Self)
        ensures
            r.wf(),
            r@ == BusState::initial(),
            r.hardware() == (pwr, spi),
    {
        SpiBus {
            pwr,
            spi,
            backplane_window: WINDOW_UNKNOWN,
            status: 0,
            ops: OpLog::new(),
            starved: Throttle::every(1024),
            reissued: Throttle::every(1024),
            f2_aborted: Throttle::every(1024),
            bp_reads: 0,
            bp_races: 0,
            bp_race_losses: 0,
            race_report: Throttle::every(64),
        }
    }

    /// Counts one multi-byte backplane read against the arriving packet: how often the two collide
    /// and how often that is not survived. Returns the tally when it is due.
    pub fn account_race(&mut self, before: u32, after: u32) -> (r: Option<Tally>)
        requires
            old(self).wf(),
            old(self)@.can_account(),
        ensures
            final(self).wf(),
            final(self).same_hardware(old(self)),
            final(self)@ == old(self)@.after_race(before, after),
            r == old(self)@.race_tally(before, after),
    {
        self.bp_reads = self.bp_reads + 1;
        let arrived: bool = before & STATUS_F2_PKT_AVAILABLE == 0 && after
            & STATUS_F2_PKT_AVAILABLE != 0;
        if !arrived {
            return None;
        }
        self.bp_races = self.bp_races + 1;
        if after & STATUS_DATA_NOT_AVAILABLE != 0 {
            self.bp_race_losses = self.bp_race_losses + 1;
        }
        match self.race_report.admit_one() {
            Some(_) => Some(
                Tally {
                    reads: self.bp_reads,
                    races: self.bp_races,
                    losses: self.bp_race_losses,
                },
            ),
            None => None,
        }
    }

    /// Whether one more multi-byte backplane read can be counted.
    pub fn can_account(&self) -> (r: bool)
        ensures
            r == self@.can_account(),
    {
        self.bp_reads < u32::MAX
    }

    /// Decides what to do about the data of a read, by the status word that was read after it.
    ///
    /// The device answers a read that it has no data for by setting `DATA_NOT_AVAILABLE` and
    /// clocking out padding. The read is not consumed: the host is expected to notice and ask
    /// again. On `Decision::Retry` the latched interrupt has to be cleared before the next attempt,
    /// so that the next status describes only the next transfer.
    pub fn reissue(&mut self, func: u8, attempt: usize) -> (r: (Decision, Option<Notice>))
        requires
            old(self).wf(),
            old(self)@.can_reissue(func, attempt),
        ensures
            final(self).wf(),
            final(self).same_hardware(old(self)),
            final(self)@ == old(self)@.after_reissue(func, attempt),
            r.0 == old(self)@.decision(func, attempt),
            r.1 == old(self)@.reissue_notice(func, attempt),
    {
        if func != FUNC_BACKPLANE || self.status & STATUS_DATA_NOT_AVAILABLE == 0 {
            if attempt > 0 {
                return match self.reissued.admit_one() {
                    Some(count) => (
                        Decision::Trust,
                        Some(Notice::Answered { func, attempt, count }),
                    ),
                    None => (Decision::Trust, None),
                };
            }
            return (Decision::Trust, None);
        }
        if attempt < READ_RETRIES {
            return (Decision::Retry, None);
        }
        match self.starved.admit_one() {
            Some(count) => (
                Decision::GiveUp,
                Some(Notice::Unanswered { func, status: self.status, count }),
            ),
            None => (Decision::GiveUp, None),
        }
    }

    /// Whether what the decision on a read with the status word `status` counts can be counted.
    pub fn can_reissue(&self, status: u32, func: u8, attempt: usize) -> (r: bool)
        requires
            self.wf(),
        ensures
            r == self@.with_status(status).can_reissue(func, attempt),
    {
        if func != FUNC_BACKPLANE || status & STATUS_DATA_NOT_AVAILABLE == 0 {
            attempt == 0 || self.reissued.seen < u32::MAX
        } else {
            attempt < READ_RETRIES || self.starved.seen < u32::MAX
        }
    }

    /// Counts the termination of a WLAN read frame.
    pub fn count_abort(&mut self) -> (r: Option<Notice>)
        requires
            old(self).wf(),
            old(self)@.f2_aborted.ready(),
        ensures
            final(self).wf(),
            final(self).same_hardware(old(self)),
            final(self)@ == old(self)@.after_abort(),
            r == old(self)@.abort_notice(),
    {
        match self.f2_aborted.admit_one() {
            Some(count) => Some(Notice::Dropped { count }),
            None => None,
        }
    }

    /// Whether one more termination of a WLAN read frame can be counted.
    pub fn can_count_abort(&self) -> (r: bool)
        requires
            self.wf(),
        ensures
            r == self@.f2_aborted.ready(),
    {
        self.f2_aborted.seen < u32::MAX
    }

    /// The next window register, from `from` on, that has to be written to reach `addr`. Once
    /// there is none, the window counts as reached.
    pub fn backplane_set_window(&mut self, addr: u32, from: Option<WindowByte>) -> (r: Option<
        WindowByte,
    >)
        requires
            old(self).wf(),
        ensures
            final(self).wf(),
            final(self).same_hardware(old(self)),
            r == first_stale(old(self)@.window, addr, from),
            final(self)@ == (if r is None {
                old(self)@.at_window(addr)
            } else {
                old(self)@
            }),
    {
        let new_window: u32 = addr & !BACKPLANE_ADDRESS_MASK;
        let cached: u32 = self.backplane_window;
        let (high, mid, low) = match from {
            Some(WindowByte::High) => (true, true, true),
            Some(WindowByte::Mid) => (false, true, true),
            Some(WindowByte::Low) => (false, false, true),
            None => (false, false, false),
        };
        let unknown: bool = cached == WINDOW_UNKNOWN;
        if high && (unknown || #[verifier::truncate] ((new_window >> 24) as u8)
            != #[verifier::truncate] ((cached >> 24) as u8)) {
            return Some(WindowByte::High);
        }
        if mid && (unknown || #[verifier::truncate] ((new_window >> 16) as u8)
            != #[verifier::truncate] ((cached >> 16) as u8)) {
            return Some(WindowByte::Mid);
        }
        if low && (unknown || #[verifier::truncate] ((new_window >> 8) as u8)
            != #[verifier::truncate] ((cached >> 8) as u8)) {
            return Some(WindowByte::Low);
        }
        self.backplane_window = new_window;
        None
    }

    /// Records one transaction and its status.
    pub fn record(&mut self, cmd: u32, status: u32)
        requires
            old(self).wf(),
        ensures
            final(self).wf(),
            final(self).same_hardware(old(self)),
            final(self)@ == old(self)@.logged(cmd, status),
    {
        self.ops.record(cmd, status);
    }

    /// Starts recording from a clean slate.
    pub fn arm(&mut self)
        requires
            old(self).wf(),
        ensures
            final(self).wf(),
            final(self).same_hardware(old(self)),
            final(self)@ == (BusState { log: LogState::empty(), ..old(self)@ }),
    {
        self.ops.arm();
    }

    /// Takes note of a status word.
    pub fn set_status(&mut self, status: u32)
        requires
            old(self).wf(),
        ensures
            final(self).wf(),
            final(self).same_hardware(old(self)),
            final(self)@ == old(self)@.with_status(status),
    {
        self.status = status;
    }

    /// The status word that was read last.
    pub fn status(&self) -> (r: u32)
        ensures
            r == self@.status,
    {
        self.status
    }

    /// The recorded transactions.
    pub fn ops(&self) -> (r: &OpLog)
        requires
            self.wf(),
        ensures
            r.wf(),
            r@ == self@.log,
    {
        &self.ops
    }

    /// The device does not append a status word to a transfer, so there is none to take.
    pub fn take_cached_status(&mut self) -> (r: u32)
        ensures
            r == 0,
            *final(self) == *old(self),
    {
        0
    }

    /// The backplane window that the device is at, as far as the host knows.
    pub fn backplane_window_cached(&self) -> (r: u32)
        ensures
            r == self@.window,
    {
        self.backplane_window
    }

    /// Forgets the backplane window, so that the next access writes all three window registers.
    pub fn backplane_window_invalidate(&mut self)
        requires
            old(self).wf(),
        ensures
            final(self).wf(),
            final(self).same_hardware(old(self)),
            final(self)@ == (BusState { window: WINDOW_UNKNOWN, ..old(self)@ }),
    {
        self.backplane_window = WINDOW_UNKNOWN;
    }
}

/// The state after a number of multi-byte backplane reads, each given by the status words before
/// and after it.
pub open spec fn after_reads(state: BusState, reads: Seq<(u32, u32)>) -> BusState
    decreases reads.len(),
{
    if reads.len() == 0 {
        state
    } else {
        after_reads(state, reads.drop_last()).after_race(reads.last().0, reads.last().1)
    }
}

/// The reads that a packet arrived during.
pub open spec fn races(reads: Seq<(u32, u32)>) -> Seq<(u32, u32)> {
    reads.filter(|r: (u32, u32)| BusState::arrived(r.0, r.1))
}

/// Of those, the ones that the device could not serve.
pub open spec fn losses(reads: Seq<(u32, u32)>) -> Seq<(u32, u32)> {
    reads.filter(
        |r: (u32, u32)| BusState::arrived(r.0, r.1) && r.1 & STATUS_DATA_NOT_AVAILABLE != 0,
    )
}

/// The counts tell how many reads there were, how many of them a packet arrived during, and how
/// many of those the device could not serve.
pub proof fn law_races_are_counted(state: BusState, reads: Seq<(u32, u32)>)
    requires
        state.valid(),
        state.bp_reads + reads.len() <= u32::MAX,
    ensures
        ({
            let end = after_reads(state, reads);
            &&& end.valid()
            &&& end.bp_reads == state.bp_reads + reads.len()
            &&& end.bp_races == state.bp_races + races(reads).len()
            &&& end.bp_race_losses == state.bp_race_losses + losses(reads).len()
        }),
    decreases reads.len(),
{
    reveal(Seq::filter);
    if reads.len() > 0 {
        law_races_are_counted(state, reads.drop_last());
    }
}

/// No window is the one that stands for an unknown window.
pub proof fn law_unknown_is_no_window(addr: u32)
    ensures
        window_of(addr) != WINDOW_UNKNOWN,
{
    assert(addr & !0x7FFFu32 != 0xAAAA_AAAA) by (bit_vector);
}

/// Once the window of an address is reached, no access within that window writes a window register.
pub proof fn law_reached_window_is_kept(state: BusState, addr: u32, other: u32)
    requires
        window_of(other) == window_of(addr),
    ensures
        first_stale(state.at_window(addr).window, other, Some(WindowByte::High)) is None,
{
    law_unknown_is_no_window(addr);
}

/// A window is as large as its size says, and its three registers hold it but for the lowest byte.
pub proof fn law_window_digits(addr: u32)
    ensures
        window_of(addr) == addr - addr % 0x8000,
        window_part(window_of(addr), WindowByte::High) == addr / 0x1000000,
        window_part(window_of(addr), WindowByte::Mid) == addr / 0x10000 % 0x100,
        window_part(window_of(addr), WindowByte::Low) == addr / 0x8000 % 2 * 0x80,
{
    let w: u32 = addr & !0x7FFFu32;
    assert(w == addr - addr % 0x8000 && (w >> 24) as u8 == addr / 0x1000000 && (w >> 16) as u8
        == addr / 0x10000 % 0x100 && (w >> 8) as u8 == addr / 0x8000 % 2 * 0x80) by (bit_vector)
        requires
            w == addr & !0x7FFFu32,
    ;
}

/// The part of any word that a window register would hold.
pub proof fn law_part_digits(window: u32)
    ensures
        window_part(window, WindowByte::High) == window / 0x1000000,
        window_part(window, WindowByte::Mid) == window / 0x10000 % 0x100,
        window_part(window, WindowByte::Low) == window / 0x100 % 0x100,
{
    assert((window >> 24) as u8 == window / 0x1000000 && (window >> 16) as u8 == window / 0x10000
        % 0x100 && (window >> 8) as u8 == window / 0x100 % 0x100) by (bit_vector);
}

/// Whether a window register has to change to go from one window to that of another address.
pub open spec fn differs(cached: u32, addr: u32, b: WindowByte) -> bool {
    cached == 0xAAAA_AAAA || match b {
        WindowByte::High => addr / 0x1000000 != cached / 0x1000000,
        WindowByte::Mid => addr / 0x10000 % 0x100 != cached / 0x10000 % 0x100,
        WindowByte::Low => addr / 0x8000 % 2 * 0x80 != cached / 0x100 % 0x100,
    }
}

/// The registers are written from the highest to the lowest, those that have to change and no
/// others.
pub proof fn law_registers_that_change_are_written(cached: u32, addr: u32)
    ensures
        WindowByte::High.after() == Some(WindowByte::Mid),
        WindowByte::Mid.after() == Some(WindowByte::Low),
        WindowByte::Low.after() is None,
        first_stale(cached, addr, None) is None,
        first_stale(cached, addr, Some(WindowByte::Low)) == if differs(
            cached,
            addr,
            WindowByte::Low,
        ) {
            Some(WindowByte::Low)
        } else {
            None
        },
        first_stale(cached, addr, Some(WindowByte::Mid)) == if differs(
            cached,
            addr,
            WindowByte::Mid,
        ) {
            Some(WindowByte::Mid)
        } else {
            first_stale(cached, addr, Some(WindowByte::Low))
        },
        first_stale(cached, addr, Some(WindowByte::High)) == if differs(
            cached,
            addr,
            WindowByte::High,
        ) {
            Some(WindowByte::High)
        } else {
            first_stale(cached, addr, Some(WindowByte::Mid))
        },
{
    law_window_digits(addr);
    law_part_digits(cached);
}

/// Nothing that is counted differs.
pub open spec fn same_counts(a: BusState, b: BusState) -> bool {
    &&& a.starved == b.starved
    &&& a.reissued == b.reissued
    &&& a.f2_aborted == b.f2_aborted
    &&& a.bp_reads == b.bp_reads
    &&& a.bp_races == b.bp_races
    &&& a.bp_race_losses == b.bp_race_losses
    &&& a.race_report == b.race_report
}

/// A bus that was not used has counted and recorded nothing and does not know the window.
pub proof fn law_unused_bus()
    ensures
        ({
            let s = BusState::initial();
            &&& s.valid()
            &&& s.window == 0xAAAA_AAAA
            &&& s.status == 0
            &&& s.log.entries.len() == 0
            &&& !s.log.frozen
            &&& s.starved.seen == 0
            &&& s.reissued.seen == 0
            &&& s.f2_aborted.seen == 0
            &&& s.bp_reads == 0 && s.bp_races == 0 && s.bp_race_losses == 0
            &&& s.starved.every == 1024 && s.reissued.every == 1024 && s.f2_aborted.every == 1024
            &&& s.race_report.seen == 0 && s.race_report.every == 64
        }),
{
}

/// Noting a status word, recording a transaction and reaching a window each change one thing.
pub proof fn law_notes_are_apart(s: BusState, status: u32, cmd: u32, addr: u32)
    ensures
        ({
            let t = s.with_status(status);
            t.status == status && t.window == s.window && t.log == s.log && same_counts(t, s)
        }),
        ({
            let t = s.logged(cmd, status);
            t.log == s.log.record(cmd, status) && t.window == s.window && t.status == s.status
                && same_counts(t, s)
        }),
        ({
            let t = s.at_window(addr);
            t.window == addr - addr % 0x8000 && t.log == s.log && t.status == s.status
                && same_counts(t, s)
        }),
{
    law_window_digits(addr);
}

/// Bit 0 of a status word tells that the device had no data, bit 8 that a packet is waiting.
proof fn lemma_status_bits(status: u32)
    ensures
        (status & STATUS_DATA_NOT_AVAILABLE != 0) == (status % 2 == 1),
        (status & STATUS_F2_PKT_AVAILABLE != 0) == (status / 0x100 % 2 == 1),
{
    assert((status & 0x1 != 0) == (status % 2 == 1) && (status & 0x100 != 0) == (status / 0x100 % 2
        == 1)) by (bit_vector);
}

/// Data is refused only on the backplane, by bit 0 of the status word. A refused read is asked for
/// again up to three times and then given up. An answer that took more than one attempt counts as
/// reissued, a read that was given up as starved, and nothing else changes. What is counted is
/// reported when its throttle says so, with its number.
pub proof fn law_refused_reads(s: BusState, func: u8, attempt: usize)
    ensures
        ({
            let refused = func == 1 && s.status % 2 == 1;
            let t = s.after_reissue(func, attempt);
            let answered = !refused && attempt > 0;
            let starved = refused && attempt >= 3;
            &&& s.decision(func, attempt) == (if !refused {
                Decision::Trust
            } else if attempt < 3 {
                Decision::Retry
            } else {
                Decision::GiveUp
            })
            &&& t.window == s.window
            &&& t.status == s.status
            &&& t.log == s.log
            &&& !answered && !starved ==> t == s
            &&& same_counts(BusState { reissued: s.reissued, starved: s.starved, ..t }, s)
            &&& t.reissued == if answered {
                s.reissued.counted()
            } else {
                s.reissued
            }
            &&& t.starved == if starved {
                s.starved.counted()
            } else {
                s.starved
            }
            &&& s.can_reissue(func, attempt) == ((answered ==> s.reissued.ready()) && (starved
                ==> s.starved.ready()))
            &&& s.reissue_notice(func, attempt) == if answered && s.reissued.report() is Some {
                Some(Notice::Answered { func, attempt, count: s.reissued.report().unwrap() })
            } else if starved && s.starved.report() is Some {
                Some(
                    Notice::Unanswered {
                        func,
                        status: s.status,
                        count: s.starved.report().unwrap(),
                    },
                )
            } else {
                None
            }
        }),
{
    lemma_status_bits(s.status);
}

/// A read raced an arriving packet if bit 8 of the status word came up during it, and the race was
/// lost if the device had no data for the read. Each read is counted, a race is counted as one, a
/// lost one as lost, and the tally of all three comes with the races that are reported. Nothing
/// else changes.
pub proof fn law_race_of_one_read(s: BusState, before: u32, after: u32)
    requires
        s.valid(),
        s.bp_reads < 0xFFFF_FFFF,
    ensures
        ({
            let raced = before / 0x100 % 2 == 0 && after / 0x100 % 2 == 1;
            let t = s.after_race(before, after);
            &&& s.can_account()
            &&& t.bp_reads == s.bp_reads + 1
            &&& t.bp_races == s.bp_races + if raced {
                1int
            } else {
                0
            }
            &&& t.bp_race_losses == s.bp_race_losses + if raced && after % 2 == 1 {
                1int
            } else {
                0
            }
            &&& t.race_report == if raced {
                s.race_report.counted()
            } else {
                s.race_report
            }
            &&& t.window == s.window
            &&& t.status == s.status
            &&& t.log == s.log
            &&& t.starved == s.starved
            &&& t.reissued == s.reissued
            &&& t.f2_aborted == s.f2_aborted
            &&& s.race_tally(before, after) == if raced && s.race_report.report() is Some {
                Some(Tally { reads: t.bp_reads, races: t.bp_races, losses: t.bp_race_losses })
            } else {
                None
            }
        }),
{
    lemma_status_bits(before);
    lemma_status_bits(after);
}

/// A dropped packet is counted as one, reported when its throttle says so, and changes nothing
/// else.
pub proof fn law_dropped_packets(s: BusState)
    ensures
        ({
            let t = s.after_abort();
            &&& t.f2_aborted == s.f2_aborted.counted()
            &&& t.window == s.window
            &&& t.status == s.status
            &&& t.log == s.log
            &&& same_counts(BusState { f2_aborted: s.f2_aborted, ..t }, s)
            &&& s.abort_notice() == if s.f2_aborted.report() is Some {
                Some(Notice::Dropped { count: s.f2_aborted.report().unwrap() })
            } else {
                None
            }
        }),
{
}

} // verus!
