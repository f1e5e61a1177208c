//! Reading and writing registers, of the bus itself and through the backplane window.

use vstd::prelude::*;

use crate::bus;
use crate::bus::{read_status, writen, BusState, SpiBus, Decision, WindowByte};
use crate::consts::{
    BACKPLANE_ADDRESS_32BIT_FLAG, BACKPLANE_ADDRESS_MASK, FUNC_BACKPLANE, FUNC_BUS, INC_ADDR,
    IRQ_DATA_UNAVAILABLE, READ, REG_BUS_INTERRUPT, STATUS_DATA_NOT_AVAILABLE, WRITE,
};
use crate::frame;
use crate::frame::cmd_word;
use crate::io::{Action, Notice, Reply};
use crate::oplog::UNINSTRUMENTED;
use crate::wire;

verus! {

/// The write that clears the latched `DATA_UNAVAILABLE` interrupt.
pub open spec fn clear_unavailable() -> Action {
    bus::register_write(FUNC_BUS, REG_BUS_INTERRUPT, IRQ_DATA_UNAVAILABLE as u32, 2)
}

/// The command word of `clear_unavailable`.
pub open spec fn clear_command() -> u32 {
    frame::command(WRITE, INC_ADDR, FUNC_BUS, REG_BUS_INTERRUPT, 2)
}

/// The write that clears the latched `DATA_UNAVAILABLE` interrupt, so that the next status word
/// describes only the next transfer.
pub fn clear_latch() -> (r: Action)
    ensures
        r == clear_unavailable(),
{
    writen(FUNC_BUS, REG_BUS_INTERRUPT, IRQ_DATA_UNAVAILABLE as u32, 2)
}

/// The command word of `clear_latch`.
pub fn clear_latch_cmd() -> (r: u32)
    ensures
        r == clear_command(),
{
    cmd_word(WRITE, INC_ADDR, FUNC_BUS, REG_BUS_INTERRUPT, 2)
}

/// Where a backplane register of `len` bytes is found within the window: words are moved as words.
pub open spec fn window_address(addr: u32, len: u32) -> u32 {
    if len == 4 {
        (addr & BACKPLANE_ADDRESS_MASK) | BACKPLANE_ADDRESS_32BIT_FLAG
    } else {
        addr & BACKPLANE_ADDRESS_MASK
    }
}

/// Where a backplane register of `len` bytes is found within the window.
fn bus_address(addr: u32, len: u32) -> (r: u32)
    ensures
        r == window_address(addr, len),
{
    let offset: u32 = addr & BACKPLANE_ADDRESS_MASK;
    if len == 4 {
        offset | BACKPLANE_ADDRESS_32BIT_FLAG
    } else {
        offset
    }
}

/// How far a register read has come; each stage but the last waits for a reply.
#[derive(Clone, Copy, PartialEq, Eq, Structural, Debug)]
pub enum ReadStage {
    /// A window register is being written.
    Window(WindowByte),
    /// The register is being read, for the time `attempt`.
    Data { attempt: usize },
    /// The status word is being read; the register read as `value`.
    Status { attempt: usize, value: u32 },
    /// The latched interrupt is being cleared before the next attempt.
    Clear { attempt: usize },
    /// The register read as `value`.
    Done { value: u32 },
}

/// A register read under way.
#[derive(Clone, Copy, PartialEq, Eq, Structural, Debug)]
pub struct RegRead {
    /// The backplane address that decides the window.
    pub target: u32,
    pub func: u8,
    /// The address within the function.
    pub addr: u32,
    pub len: u32,
    pub stage: ReadStage,
}

impl RegRead {
    /// The command word of the read.
    pub open spec fn command(self) -> u32 {
        frame::command(READ, INC_ADDR, self.func, self.addr, self.len)
    }

    /// Backplane reads bring one extra word first, for the response delay.
    pub open spec fn response_words(self) -> usize {
        if self.func == FUNC_BACKPLANE {
            2
        } else {
            1
        }
    }

    /// What the read waits for.
    pub open spec fn pending(self) -> Option<Action> {
        match self.stage {
            ReadStage::Window(b) => Some(b.write_for(self.target)),
            ReadStage::Data { .. } => Some(
                Action::Read { cmd: self.command(), words: self.response_words() },
            ),
            ReadStage::Status { .. } => Some(bus::status_read()),
            ReadStage::Clear { .. } => Some(clear_unavailable()),
            ReadStage::Done { .. } => None,
        }
    }

    /// The read with its stage replaced.
    pub open spec fn at(self, stage: ReadStage) -> RegRead {
        RegRead { stage, ..self }
    }

    /// The state of the bus and the read from the window register `from` on: the next register
    /// that has to be written is, and once there is none the data is read.
    pub open spec fn enter(self, state: BusState, from: Option<WindowByte>) -> (BusState, RegRead) {
        match bus::first_stale(state.window, self.target, from) {
            Some(b) => (state, self.at(ReadStage::Window(b))),
            None => (
                state.at_window(self.target),
                self.at(ReadStage::Data { attempt: 0 }),
            ),
        }
    }

    /// The state of the bus and the read after a decision on the data: an attempt that is not
    /// trusted is followed by another one, up to the last.
    pub open spec fn judge(self, state: BusState, attempt: usize, value: u32) -> (
        BusState,
        RegRead,
    ) {
        (
            state.after_reissue(self.func, attempt),
            if state.decision(self.func, attempt) == Decision::Retry {
                self.at(ReadStage::Clear { attempt })
            } else {
                self.at(ReadStage::Done { value })
            },
        )
    }

    /// The state of the bus and the read after a reply.
    ///
    /// Only the backplane spends a transaction on the status word. Its data is the second word,
    /// after the response delay.
    pub open spec fn step(self, state: BusState, reply: Reply) -> (BusState, RegRead) {
        match self.stage {
            ReadStage::Window(b) => self.enter(
                state.logged(
                    frame::command(WRITE, INC_ADDR, FUNC_BACKPLANE, b.register(), 1),
                    UNINSTRUMENTED,
                ),
                b.after(),
            ),
            ReadStage::Data { attempt } => if self.func == FUNC_BACKPLANE {
                (state, self.at(ReadStage::Status { attempt, value: reply.second }))
            } else {
                self.judge(state.logged(self.command(), UNINSTRUMENTED), attempt, reply.first)
            },
            ReadStage::Status { attempt, value } => self.judge(
                state.with_status(reply.first).logged(self.command(), reply.first),
                attempt,
                value,
            ),
            ReadStage::Clear { attempt } => (
                state.logged(clear_command(), UNINSTRUMENTED),
                self.at(ReadStage::Data { attempt: (attempt + 1) as usize }),
            ),
            ReadStage::Done { .. } => (state, self),
        }
    }

    /// What is reported at that reply.
    pub open spec fn notice(self, state: BusState, reply: Reply) -> Option<Notice> {
        match self.stage {
            ReadStage::Data { attempt } if self.func != FUNC_BACKPLANE => state.reissue_notice(
                self.func,
                attempt,
            ),
            ReadStage::Status { attempt, .. } => state.with_status(reply.first).reissue_notice(
                self.func,
                attempt,
            ),
            _ => None,
        }
    }

    /// There is room to count what that reply makes count.
    pub open spec fn countable(self, state: BusState, reply: Reply) -> bool {
        match self.stage {
            ReadStage::Data { attempt } if self.func != FUNC_BACKPLANE => state.can_reissue(
                self.func,
                attempt,
            ),
            ReadStage::Status { attempt, .. } => state.with_status(reply.first).can_reissue(
                self.func,
                attempt,
            ),
            _ => true,
        }
    }

    /// The state of the bus and the read after a number of replies.
    pub open spec fn run(self, state: BusState, replies: Seq<Reply>) -> (BusState, RegRead)
        decreases replies.len(),
    {
        if replies.len() == 0 {
            (state, self)
        } else {
            let (next, op) = self.step(state, replies[0]);
            op.run(next, replies.drop_first())
        }
    }

    /// How many replies the read takes at most.
    pub open spec fn replies_left(self) -> int {
        match self.stage {
            ReadStage::Window(WindowByte::High) => 14,
            ReadStage::Window(WindowByte::Mid) => 13,
            ReadStage::Window(WindowByte::Low) => 12,
            ReadStage::Data { attempt } => 3 * (bus::READ_RETRIES - attempt) + 2,
            ReadStage::Status { attempt, .. } => 3 * (bus::READ_RETRIES - attempt) + 1,
            ReadStage::Clear { attempt } => 3 * (bus::READ_RETRIES - attempt),
            ReadStage::Done { .. } => 0,
        }
    }

    /// An attempt that is followed by another is not the last, and only backplane reads get that
    /// far.
    pub open spec fn wf(self) -> bool {
        match self.stage {
            ReadStage::Window(_) => self.func == FUNC_BACKPLANE,
            ReadStage::Data { attempt } => attempt <= bus::READ_RETRIES && (self.func
                != FUNC_BACKPLANE ==> attempt == 0),
            ReadStage::Status { attempt, .. } => attempt <= bus::READ_RETRIES && self.func
                == FUNC_BACKPLANE,
            ReadStage::Clear { attempt } => attempt < bus::READ_RETRIES && self.func
                == FUNC_BACKPLANE,
            ReadStage::Done { .. } => true,
        }
    }

    /// What the read waits for; nothing once it is done.
    pub fn action(&self) -> (r: Option<Action>)
        ensures
            r == self.pending(),
    {
        match self.stage {
            ReadStage::Window(b) => Some(b.write(self.target)),
            ReadStage::Data { .. } => Some(
                Action::Read {
                    cmd: cmd_word(READ, INC_ADDR, self.func, self.addr, self.len),
                    words: if self.func == FUNC_BACKPLANE {
                        2
                    } else {
                        1
                    },
                },
            ),
            ReadStage::Status { .. } => Some(read_status()),
            ReadStage::Clear { .. } => Some(clear_latch()),
            ReadStage::Done { .. } => None,
        }
    }

    /// What the register read as, once the read is done.
    pub fn value(&self) -> (r: Option<u32>)
        ensures
            r == (match self.stage {
                ReadStage::Done { value } => Some(value),
                _ => None,
            }),
    {
        match self.stage {
            ReadStage::Done { value } => Some(value),
            _ => None,
        }
    }

    /// What a register of one byte read as, once the read is done.
    pub fn value8(&self) -> (r: Option<u8>)
        ensures
            r == (match self.stage {
                ReadStage::Done { value } => Some((value % 0x100) as u8),
                _ => None,
            }),
    {
        match self.stage {
            ReadStage::Done { value } => Some((value % 0x100) as u8),
            _ => None,
        }
    }

    /// What a register of two bytes read as, once the read is done.
    pub fn value16(&self) -> (r: Option<u16>)
        ensures
            r == (match self.stage {
                ReadStage::Done { value } => Some((value % 0x10000) as u16),
                _ => None,
            }),
    {
        match self.stage {
            ReadStage::Done { value } => Some((value % 0x10000) as u16),
            _ => None,
        }
    }

    /// Whether there is room to count what that reply makes count.
    pub fn can_resume<PWR, SPI>(&self, bus: &SpiBus<PWR, SPI>, reply: Reply) -> (r: bool)
        requires
            bus.wf(),
        ensures
            r == self.countable(bus@, reply),
    {
        match self.stage {
            ReadStage::Data { attempt } => if self.func != FUNC_BACKPLANE {
                let status: u32 = bus.status();
                bus.can_reissue(status, self.func, attempt)
            } else {
                true
            },
            ReadStage::Status { attempt, .. } => bus.can_reissue(reply.first, self.func, attempt),
            _ => true,
        }
    }

    /// Takes the reply to what the read waits for.
    pub fn resume<PWR, SPI>(&mut self, bus: &mut SpiBus<PWR, SPI>, reply: Reply) -> (r: Option<
        Notice,
    >)
        requires
            old(bus).wf(),
            old(self).wf(),
            old(self).pending() is Some,
            old(self).countable(old(bus)@, reply),
        ensures
            final(bus).wf(),
            final(bus).same_hardware(old(bus)),
            final(self).wf(),
            (final(bus)@, *final(self)) == old(self).step(old(bus)@, reply),
            r == old(self).notice(old(bus)@, reply),
    {
        let cmd: u32 = cmd_word(READ, INC_ADDR, self.func, self.addr, self.len);
        match self.stage {
            ReadStage::Window(b) => {
                record_window_write(bus, b);
                self.enter_window(bus, b.next());
                None
            },
            ReadStage::Data { attempt } => if self.func == FUNC_BACKPLANE {
                self.stage = ReadStage::Status { attempt, value: reply.second };
                None
            } else {
                bus.record(cmd, UNINSTRUMENTED);
                self.settle(bus, attempt, reply.first)
            },
            ReadStage::Status { attempt, value } => {
                bus.set_status(reply.first);
                bus.record(cmd, reply.first);
                self.settle(bus, attempt, value)
            },
            ReadStage::Clear { attempt } => {
                bus.record(clear_latch_cmd(), UNINSTRUMENTED);
                self.stage = ReadStage::Data { attempt: attempt + 1 };
                None
            },
            ReadStage::Done { .. } => None,
        }
    }

    /// Goes on with the window register `from`.
    fn enter_window<PWR, SPI>(&mut self, bus: &mut SpiBus<PWR, SPI>, from: Option<WindowByte>)
        requires
            old(bus).wf(),
            old(self).func == FUNC_BACKPLANE,
        ensures
            final(bus).wf(),
            final(bus).same_hardware(old(bus)),
            final(self).wf(),
            (final(bus)@, *final(self)) == old(self).enter(old(bus)@, from),
    {
        match bus.backplane_set_window(self.target, from) {
            Some(b) => {
                self.stage = ReadStage::Window(b);
            },
            None => {
                self.stage = ReadStage::Data { attempt: 0 };
            },
        }
    }

    /// Decides about the data.
    fn settle<PWR, SPI>(
        &mut self,
        bus: &mut SpiBus<PWR, SPI>,
        attempt: usize,
        value: u32,
    ) -> (r: Option<Notice>)
        requires
            old(bus).wf(),
            old(bus)@.can_reissue(old(self).func, attempt),
        ensures
            final(bus).wf(),
            final(bus).same_hardware(old(bus)),
            final(self).wf(),
            (final(bus)@, *final(self)) == old(self).judge(old(bus)@, attempt, value),
            r == old(bus)@.reissue_notice(old(self).func, attempt),
    {
        let (decision, notice) = bus.reissue(self.func, attempt);
        match decision {
            Decision::Retry => {
                self.stage = ReadStage::Clear { attempt };
            },
            Decision::Trust | Decision::GiveUp => {
                self.stage = ReadStage::Done { value };
            },
        }
        notice
    }
}

/// Records the write of a window register.
pub fn record_window_write<PWR, SPI>(bus: &mut SpiBus<PWR, SPI>, b: WindowByte)
    requires
        old(bus).wf(),
    ensures
        final(bus).wf(),
        final(bus).same_hardware(old(bus)),
        final(bus)@ == old(bus)@.logged(
            frame::command(WRITE, INC_ADDR, FUNC_BACKPLANE, b.register(), 1),
            UNINSTRUMENTED,
        ),
{
    match b.write(0) {
        Action::Write { cmd, .. } => bus.record(cmd, UNINSTRUMENTED),
        _ => {},
    }
}

/// How far a register write has come; each stage but the last waits for a reply.
#[derive(Clone, Copy, PartialEq, Eq, Structural, Debug)]
pub enum WriteStage {
    /// A window register is being written.
    Window(WindowByte),
    /// The register is being written.
    Data,
    Done,
}

/// A register write under way.
#[derive(Clone, Copy, PartialEq, Eq, Structural, Debug)]
pub struct RegWrite {
    /// The backplane address that decides the window.
    pub target: u32,
    pub func: u8,
    /// The address within the function.
    pub addr: u32,
    pub val: u32,
    pub len: u32,
    pub stage: WriteStage,
}

impl RegWrite {
    /// The command word of the write.
    pub open spec fn command(self) -> u32 {
        frame::command(WRITE, INC_ADDR, self.func, self.addr, self.len)
    }

    /// What the write waits for.
    pub open spec fn pending(self) -> Option<Action> {
        match self.stage {
            WriteStage::Window(b) => Some(b.write_for(self.target)),
            WriteStage::Data => Some(Action::Write { cmd: self.command(), val: self.val }),
            WriteStage::Done => None,
        }
    }

    /// The write with its stage replaced.
    pub open spec fn at(self, stage: WriteStage) -> RegWrite {
        RegWrite { stage, ..self }
    }

    /// The state of the bus and the write from the window register `from` on.
    pub open spec fn enter(self, state: BusState, from: Option<WindowByte>) -> (
        BusState,
        RegWrite,
    ) {
        match bus::first_stale(state.window, self.target, from) {
            Some(b) => (state, self.at(WriteStage::Window(b))),
            None => (state.at_window(self.target), self.at(WriteStage::Data)),
        }
    }

    /// The state of the bus and the write after a reply.
    pub open spec fn step(self, state: BusState) -> (BusState, RegWrite) {
        match self.stage {
            WriteStage::Window(b) => self.enter(
                state.logged(
                    frame::command(WRITE, INC_ADDR, FUNC_BACKPLANE, b.register(), 1),
                    UNINSTRUMENTED,
                ),
                b.after(),
            ),
            WriteStage::Data => (
                state.logged(self.command(), UNINSTRUMENTED),
                self.at(WriteStage::Done),
            ),
            WriteStage::Done => (state, self),
        }
    }

    /// What the write waits for; nothing once it is done.
    pub fn action(&self) -> (r: Option<Action>)
        ensures
            r == self.pending(),
    {
        match self.stage {
            WriteStage::Window(b) => Some(b.write(self.target)),
            WriteStage::Data => Some(writen(self.func, self.addr, self.val, self.len)),
            WriteStage::Done => None,
        }
    }

    /// Takes the reply to what the write waits for.
    pub fn resume<PWR, SPI>(&mut self, bus: &mut SpiBus<PWR, SPI>)
        requires
            old(bus).wf(),
            old(self).pending() is Some,
        ensures
            final(bus).wf(),
            final(bus).same_hardware(old(bus)),
            (final(bus)@, *final(self)) == old(self).step(old(bus)@),
    {
        match self.stage {
            WriteStage::Window(b) => {
                record_window_write(bus, b);
                self.enter_window(bus, b.next());
            },
            WriteStage::Data => {
                bus.record(
                    cmd_word(WRITE, INC_ADDR, self.func, self.addr, self.len),
                    UNINSTRUMENTED,
                );
                self.stage = WriteStage::Done;
            },
            WriteStage::Done => {},
        }
    }

    /// Goes on with the window register `from`.
    fn enter_window<PWR, SPI>(&mut self, bus: &mut SpiBus<PWR, SPI>, from: Option<WindowByte>)
        requires
            old(bus).wf(),
        ensures
            final(bus).wf(),
            final(bus).same_hardware(old(bus)),
            (final(bus)@, *final(self)) == old(self).enter(old(bus)@, from),
    {
        match bus.backplane_set_window(self.target, from) {
            Some(b) => {
                self.stage = WriteStage::Window(b);
            },
            None => {
                self.stage = WriteStage::Data;
            },
        }
    }
}

/// The read of a register at an address of a function.
pub open spec fn plain_read(func: u8, addr: u32, len: u32) -> RegRead {
    RegRead { target: 0, func, addr, len, stage: ReadStage::Data { attempt: 0 } }
}

/// The write of a register at an address of a function.
pub open spec fn plain_write(func: u8, addr: u32, val: u32, len: u32) -> RegWrite {
    RegWrite { target: 0, func, addr, val, len, stage: WriteStage::Data }
}

impl<PWR, SPI> SpiBus<PWR, SPI> {
    /// Starts to read `len` bytes of a register.
    pub fn readn(&self, func: u8, addr: u32, len: u32) -> (r: RegRead)
        ensures
            r == plain_read(func, addr, len),
            r.wf(),
            r == (RegRead { target: 0, func, addr, len, stage: ReadStage::Data { attempt: 0 } }),
    {
        RegRead { target: 0, func, addr, len, stage: ReadStage::Data { attempt: 0 } }
    }

    /// Starts to write `len` bytes of a register.
    pub fn writen(&self, func: u8, addr: u32, val: u32, len: u32) -> (r: RegWrite)
        ensures
            r == plain_write(func, addr, val, len),
            r == (RegWrite { target: 0, func, addr, val, len, stage: WriteStage::Data }),
    {
        RegWrite { target: 0, func, addr, val, len, stage: WriteStage::Data }
    }

    /// Starts to read `len` bytes of a backplane register.
    pub fn backplane_readn(&mut self, addr: u32, len: u32) -> (r: RegRead)
        requires
            old(self).wf(),
        ensures
            final(self).wf(),
            final(self).same_hardware(old(self)),
            r.wf(),
            (final(self)@, r) == backplane_read(addr, len).enter(
                old(self)@,
                Some(WindowByte::High),
            ),
    {
        let mut r = RegRead {
            target: addr,
            func: FUNC_BACKPLANE,
            addr: bus_address(addr, len),
            len,
            stage: ReadStage::Data { attempt: 0 },
        };
        r.enter_window(self, Some(WindowByte::High));
        r
    }

    /// Starts to write `len` bytes of a backplane register.
    pub fn backplane_writen(&mut self, addr: u32, val: u32, len: u32) -> (r: RegWrite)
        requires
            old(self).wf(),
        ensures
            final(self).wf(),
            final(self).same_hardware(old(self)),
            (final(self)@, r) == backplane_write(addr, val, len).enter(
                old(self)@,
                Some(WindowByte::High),
            ),
    {
        let mut r = RegWrite {
            target: addr,
            func: FUNC_BACKPLANE,
            addr: bus_address(addr, len),
            val,
            len,
            stage: WriteStage::Data,
        };
        r.enter_window(self, Some(WindowByte::High));
        r
    }

    /// Starts to read a backplane register of 1 byte.
    pub fn bp_read8(&mut self, addr: u32) -> (r: RegRead)
        requires
            old(self).wf(),
        ensures
            final(self).wf(),
            final(self).same_hardware(old(self)),
            r.wf(),
            (final(self)@, r) == backplane_read(addr, 1).enter(
                old(self)@,
                Some(WindowByte::High),
            ),
    {
        self.backplane_readn(addr, 1)
    }

    /// Starts to write a backplane register of 1 byte.
    pub fn bp_write8(&mut self, addr: u32, val: u8) -> (r: RegWrite)
        requires
            old(self).wf(),
        ensures
            final(self).wf(),
            final(self).same_hardware(old(self)),
            (final(self)@, r) == backplane_write(addr, val as u32, 1).enter(
                old(self)@,
                Some(WindowByte::High),
            ),
    {
        self.backplane_writen(addr, val as u32, 1)
    }

    /// Starts to read a backplane register of 2 bytes.
    pub fn bp_read16(&mut self, addr: u32) -> (r: RegRead)
        requires
            old(self).wf(),
        ensures
            final(self).wf(),
            final(self).same_hardware(old(self)),
            r.wf(),
            (final(self)@, r) == backplane_read(addr, 2).enter(
                old(self)@,
                Some(WindowByte::High),
            ),
    {
        self.backplane_readn(addr, 2)
    }

    /// Starts to write a backplane register of 2 bytes.
    pub fn bp_write16(&mut self, addr: u32, val: u16) -> (r: RegWrite)
        requires
            old(self).wf(),
        ensures
            final(self).wf(),
            final(self).same_hardware(old(self)),
            (final(self)@, r) == backplane_write(addr, val as u32, 2).enter(
                old(self)@,
                Some(WindowByte::High),
            ),
    {
        self.backplane_writen(addr, val as u32, 2)
    }

    /// Starts to read a backplane register of 4 bytes.
    pub fn bp_read32(&mut self, addr: u32) -> (r: RegRead)
        requires
            old(self).wf(),
        ensures
            final(self).wf(),
            final(self).same_hardware(old(self)),
            r.wf(),
            (final(self)@, r) == backplane_read(addr, 4).enter(
                old(self)@,
                Some(WindowByte::High),
            ),
    {
        self.backplane_readn(addr, 4)
    }

    /// Starts to write a backplane register of 4 bytes.
    pub fn bp_write32(&mut self, addr: u32, val: u32) -> (r: RegWrite)
        requires
            old(self).wf(),
        ensures
            final(self).wf(),
            final(self).same_hardware(old(self)),
            (final(self)@, r) == backplane_write(addr, val, 4).enter(
                old(self)@,
                Some(WindowByte::High),
            ),
    {
        self.backplane_writen(addr, val, 4)
    }

    /// Starts to read a register of 1 byte.
    pub fn read8(&self, func: u8, addr: u32) -> (r: RegRead)
        ensures
            r == plain_read(func, addr, 1),
            r.wf(),
            r == (RegRead {
                target: 0,
                func,
                addr,
                len: 1,
                stage: ReadStage::Data { attempt: 0 },
            }),
    {
        self.readn(func, addr, 1)
    }

    /// Starts to write a register of 1 byte.
    pub fn write8(&self, func: u8, addr: u32, val: u8) -> (r: RegWrite)
        ensures
            r == plain_write(func, addr, val as u32, 1),
            r == (RegWrite {
                target: 0,
                func,
                addr,
                val: val as u32,
                len: 1,
                stage: WriteStage::Data,
            }),
    {
        self.writen(func, addr, val as u32, 1)
    }

    /// Starts to read a register of 2 bytes.
    pub fn read16(&self, func: u8, addr: u32) -> (r: RegRead)
        ensures
            r == plain_read(func, addr, 2),
            r.wf(),
            r == (RegRead {
                target: 0,
                func,
                addr,
                len: 2,
                stage: ReadStage::Data { attempt: 0 },
            }),
    {
        self.readn(func, addr, 2)
    }

    /// Starts to write a register of 2 bytes.
    pub fn write16(&self, func: u8, addr: u32, val: u16) -> (r: RegWrite)
        ensures
            r == plain_write(func, addr, val as u32, 2),
            r == (RegWrite {
                target: 0,
                func,
                addr,
                val: val as u32,
                len: 2,
                stage: WriteStage::Data,
            }),
    {
        self.writen(func, addr, val as u32, 2)
    }

    /// Starts to read a register of 4 bytes.
    pub fn read32(&self, func: u8, addr: u32) -> (r: RegRead)
        ensures
            r == plain_read(func, addr, 4),
            r.wf(),
            r == (RegRead {
                target: 0,
                func,
                addr,
                len: 4,
                stage: ReadStage::Data { attempt: 0 },
            }),
    {
        self.readn(func, addr, 4)
    }

    /// Starts to write a register of 4 bytes.
    pub fn write32(&self, func: u8, addr: u32, val: u32) -> (r: RegWrite)
        ensures
            r == plain_write(func, addr, val, 4),
            r == (RegWrite {
                target: 0,
                func,
                addr,
                val: val,
                len: 4,
                stage: WriteStage::Data,
            }),
    {
        self.writen(func, addr, val, 4)
    }
}

/// The read of a backplane register, its window not looked at yet.
pub open spec fn backplane_read(addr: u32, len: u32) -> RegRead {
    RegRead {
        target: addr,
        func: FUNC_BACKPLANE,
        addr: window_address(addr, len),
        len,
        stage: ReadStage::Data { attempt: 0 },
    }
}

/// The write of a backplane register, its window not looked at yet.
pub open spec fn backplane_write(addr: u32, val: u32, len: u32) -> RegWrite {
    RegWrite {
        target: addr,
        func: FUNC_BACKPLANE,
        addr: window_address(addr, len),
        val,
        len,
        stage: WriteStage::Data,
    }
}

/// The replies to attempts `j` to `k` of a backplane read: the data and the status word of each,
/// and the clearing of the latch after each but the last.
pub open spec fn attempts(
    data: Seq<Reply>,
    status: Seq<Reply>,
    cleared: Seq<Reply>,
    j: int,
    k: int,
) -> Seq<Reply>
    decreases k - j,
{
    if j >= k {
        seq![data[k], status[k]]
    } else {
        seq![data[j], status[j], cleared[j]] + attempts(data, status, cleared, j + 1, k)
    }
}

/// Whether a status word says that the device had no data.
pub open spec fn unavailable(status: u32) -> bool {
    status & STATUS_DATA_NOT_AVAILABLE != 0
}

/// A backplane read that the device could not serve is issued again, until it is served or has
/// been issued again `READ_RETRIES` times; what the last attempt brought is the value. A read that
/// was served only when asked again is counted as such, one that never was is counted as starved.
pub proof fn law_backplane_read_is_reissued(
    op: RegRead,
    state: BusState,
    data: Seq<Reply>,
    status: Seq<Reply>,
    cleared: Seq<Reply>,
    k: int,
)
    requires
        op.func == FUNC_BACKPLANE,
        op.stage == (ReadStage::Data { attempt: 0 }),
        0 <= k <= bus::READ_RETRIES,
        data.len() == k + 1,
        status.len() == k + 1,
        cleared.len() == k,
        forall|i: int| 0 <= i < k ==> unavailable(#[trigger] status[i].first),
        k < bus::READ_RETRIES ==> !unavailable(status[k].first),
    ensures
        ({
            let (last, end) = op.run(state, attempts(data, status, cleared, 0, k));
            &&& end == op.at(ReadStage::Done { value: data[k].second })
            &&& last.status == status[k].first
            &&& last.starved == (if unavailable(status[k].first) {
                state.starved.counted()
            } else {
                state.starved
            })
            &&& last.reissued == (if k > 0 && !unavailable(status[k].first) {
                state.reissued.counted()
            } else {
                state.reissued
            })
            &&& last.window == state.window
        }),
{
    lemma_attempts(op, state, data, status, cleared, 0, k);
}

/// The same from attempt `j` on.
proof fn lemma_attempts(
    op: RegRead,
    state: BusState,
    data: Seq<Reply>,
    status: Seq<Reply>,
    cleared: Seq<Reply>,
    j: int,
    k: int,
)
    requires
        op.func == FUNC_BACKPLANE,
        op.stage == (ReadStage::Data { attempt: j as usize }),
        0 <= j <= k <= bus::READ_RETRIES,
        data.len() == k + 1,
        status.len() == k + 1,
        cleared.len() == k,
        forall|i: int| 0 <= i < k ==> unavailable(#[trigger] status[i].first),
        k < bus::READ_RETRIES ==> !unavailable(status[k].first),
    ensures
        ({
            let (last, end) = op.run(state, attempts(data, status, cleared, j, k));
            &&& end == op.at(ReadStage::Done { value: data[k].second })
            &&& last.status == status[k].first
            &&& last.starved == (if unavailable(status[k].first) {
                state.starved.counted()
            } else {
                state.starved
            })
            &&& last.reissued == (if k > 0 && !unavailable(status[k].first) {
                state.reissued.counted()
            } else {
                state.reissued
            })
            &&& last.window == state.window
        }),
    decreases k - j,
{
    reveal_with_fuel(RegRead::run, 4);
    let all = attempts(data, status, cleared, j, k);
    if j == k {
        assert(all.drop_first() =~= seq![status[k]]);
        assert(all.drop_first().drop_first() =~= Seq::<Reply>::empty());
    } else {
        let rest = attempts(data, status, cleared, j + 1, k);
        assert(all.drop_first().drop_first().drop_first() =~= rest);
        assert(unavailable(status[j].first));
        let (s1, op1) = op.step(state, data[j]);
        let (s2, op2) = op1.step(s1, status[j]);
        let (s3, op3) = op2.step(s2, cleared[j]);
        assert(op2.stage == (ReadStage::Clear { attempt: j as usize }));
        assert(all[0] == data[j] && all.drop_first()[0] == status[j]
            && all.drop_first().drop_first()[0] == cleared[j]);
        assert(op.run(state, all) == op3.run(s3, rest));
        lemma_attempts(op3, s3, data, status, cleared, j + 1, k);
    }
}

/// A read of a register that is not on the backplane takes one exchange, whatever its status: the
/// first word is the value, and the read is recorded without a status.
pub proof fn law_bus_read_is_one_exchange(op: RegRead, state: BusState, reply: Reply)
    requires
        op.func != FUNC_BACKPLANE,
        op.stage == (ReadStage::Data { attempt: 0 }),
    ensures
        op.step(state, reply) == (
            state.logged(op.command(), UNINSTRUMENTED),
            op.at(ReadStage::Done { value: reply.first }),
        ),
        op.notice(state, reply) is None,
        op.countable(state, reply),
{
}

/// Whatever the device replies, a register read gets closer to its end with every reply, so it
/// takes three window writes, `READ_RETRIES + 1` reads with their status words and `READ_RETRIES`
/// clearings at most.
pub proof fn law_register_read_ends(op: RegRead, state: BusState, reply: Reply)
    requires
        op.wf(),
        op.pending() is Some,
    ensures
        op.step(state, reply).1.wf(),
        0 <= op.step(state, reply).1.replies_left() < op.replies_left() <= 14,
{
}

/// The write of a register at an address of a function takes exactly one exchange, a write of the
/// value that was given with the function, address and length that were given. It is recorded
/// without a status and changes nothing else.
pub proof fn law_register_write_is_one_exchange(
    func: u8,
    addr: u32,
    val: u32,
    len: u32,
    state: BusState,
)
    ensures
        ({
            let op = plain_write(func, addr, val, len);
            let (after, end) = op.step(state);
            &&& wire::writes(op.pending(), func as int, addr as int, len as int, val as int)
            &&& end.pending() is None
            &&& after.log == state.log.record(wire::sent(op.pending()), 0)
            &&& after.window == state.window
            &&& after.status == state.status
            &&& bus::same_counts(after, state)
        }),
{
    wire::law_register_write_asks(plain_write(func, addr, val, len));
}

/// The read of a register that is not on the backplane takes exactly one exchange, a read of one
/// word with the function, address and length that were given, and that word is the value. It is
/// recorded without a status and changes nothing else.
pub proof fn law_register_read_is_one_exchange(
    func: u8,
    addr: u32,
    len: u32,
    state: BusState,
    reply: Reply,
)
    requires
        func != 1,
    ensures
        ({
            let op = plain_read(func, addr, len);
            let (after, end) = op.step(state, reply);
            &&& wire::reads(op.pending(), func as int, addr as int, len as int, 1)
            &&& end.stage == (ReadStage::Done { value: reply.first })
            &&& end.pending() is None
            &&& op.notice(state, reply) is None
            &&& op.countable(state, reply)
            &&& after.log == state.log.record(wire::sent(op.pending()), 0)
            &&& after.window == state.window
            &&& after.status == state.status
            &&& bus::same_counts(after, state)
        }),
{
    wire::law_register_read_asks(plain_read(func, addr, len));
}

/// A plain access to the backplane function starts with the data: the window is not looked at.
pub proof fn law_plain_access_leaves_window(addr: u32, val: u32, len: u32)
    ensures
        wire::reads(plain_read(1, addr, len).pending(), 1, addr as int, len as int, 2),
        wire::writes(plain_write(1, addr, val, len).pending(), 1, addr as int, len as int, val as int),
{
    wire::law_register_read_asks(plain_read(1, addr, len));
    wire::law_register_write_asks(plain_write(1, addr, val, len));
}

/// An access to a backplane register first writes the window registers that have to change, then
/// goes on to the data at the window of its address. Reaching the window changes nothing but what
/// the host knows of it.
pub proof fn law_backplane_access_starts_at_window(
    addr: u32,
    val: u32,
    len: u32,
    state: BusState,
    from: Option<WindowByte>,
)
    ensures
        ({
            let (s, r) = backplane_read(addr, len).enter(state, from);
            let (t, w) = backplane_write(addr, val, len).enter(state, from);
            let next = bus::first_stale(state.window, addr, from);
            &&& r.target == addr && r.func == 1 && r.len == len
            &&& w.target == addr && w.func == 1 && w.len == len && w.val == val
            &&& r.addr == w.addr == addr % 0x8000 + if len == 4 {
                0x8000int
            } else {
                0
            }
            &&& s == t
            &&& next is Some ==> s == state
            &&& next is None ==> s.window == addr - addr % 0x8000
            &&& r.stage == if next is Some {
                ReadStage::Window(next.unwrap())
            } else {
                ReadStage::Data { attempt: 0 }
            }
            &&& w.stage == if next is Some {
                WriteStage::Window(next.unwrap())
            } else {
                WriteStage::Data
            }
            &&& s.status == state.status && s.log == state.log && bus::same_counts(s, state)
        }),
{
    wire::law_backplane_register(addr, val, len);
    bus::law_window_digits(addr);
}

/// How a register write goes on after each exchange: every exchange is recorded as it went out,
/// without a status; the window registers that have to change come first, the highest first, then
/// the data, and then the write is done.
pub proof fn law_register_write_course(op: RegWrite, state: BusState)
    requires
        op.pending() is Some,
    ensures
        ({
            let (s, n) = op.step(state);
            &&& n.target == op.target && n.func == op.func && n.addr == op.addr && n.val == op.val
                && n.len == op.len
            &&& s.log == state.log.record(wire::sent(op.pending()), 0)
            &&& s.status == state.status
            &&& bus::same_counts(s, state)
            &&& match op.stage {
                WriteStage::Window(b) => match bus::first_stale(state.window, op.target, b.after()) {
                    Some(c) => n.stage == WriteStage::Window(c) && s.window == state.window,
                    None => n.stage == WriteStage::Data && s.window == op.target - op.target
                        % 0x8000,
                },
                _ => n.stage == WriteStage::Done && s.window == state.window,
            }
        }),
{
    wire::law_register_write_asks(op);
    bus::law_window_digits(op.target);
    match op.stage {
        WriteStage::Window(b) => {
            frame::law_command_layout(true, true, FUNC_BACKPLANE, b.register(), 1);
        },
        _ => {},
    }
}

/// How a register read goes on after each exchange. The window registers that have to change come
/// first. The second word of a backplane read is kept while the status is read, and becomes the
/// value unless bit 0 of the status says that the device had no data and fewer than three reads
/// have been repeated: then the latch is cleared and the read issued again. A backplane read is
/// recorded with the status that was read for it, everything else without one.
pub proof fn law_register_read_course(op: RegRead, state: BusState, reply: Reply)
    requires
        op.wf(),
        op.pending() is Some,
    ensures
        ({
            let (s, n) = op.step(state, reply);
            let data = op.at(ReadStage::Data { attempt: 0 }).pending();
            &&& n.target == op.target && n.func == op.func && n.addr == op.addr && n.len == op.len
            &&& s.window == if op.stage is Window && n.stage is Data {
                (op.target - op.target % 0x8000) as u32
            } else {
                state.window
            }
            &&& match op.stage {
                ReadStage::Window(b) => {
                    &&& s.log == state.log.record(wire::sent(op.pending()), 0)
                    &&& n.stage == match bus::first_stale(state.window, op.target, b.after()) {
                        Some(c) => ReadStage::Window(c),
                        None => ReadStage::Data { attempt: 0 },
                    }
                },
                ReadStage::Data { attempt } => if op.func == 1 {
                    &&& s.log == state.log
                    &&& n.stage == (ReadStage::Status { attempt, value: reply.second })
                } else {
                    &&& s.log == state.log.record(wire::sent(data), 0)
                    &&& n.stage == (ReadStage::Done { value: reply.first })
                },
                ReadStage::Status { attempt, value } => {
                    &&& s.log == state.log.record(wire::sent(data), reply.first)
                    &&& s.status == reply.first
                    &&& n.stage == if reply.first % 2 == 1 && attempt < 3 {
                        ReadStage::Clear { attempt }
                    } else {
                        ReadStage::Done { value }
                    }
                    &&& bus::same_counts(
                        s,
                        BusState { status: reply.first, ..state }.after_reissue(1, attempt),
                    )
                    &&& op.notice(state, reply) == BusState {
                        status: reply.first,
                        ..state
                    }.reissue_notice(1, attempt)
                    &&& op.countable(state, reply) == BusState {
                        status: reply.first,
                        ..state
                    }.can_reissue(1, attempt)
                },
                ReadStage::Clear { attempt } => {
                    &&& s.log == state.log.record(wire::sent(op.pending()), 0)
                    &&& n.stage == (ReadStage::Data { attempt: (attempt + 1) as usize })
                },
                ReadStage::Done { .. } => true,
            }
            &&& !(op.stage is Status) ==> s.status == state.status && bus::same_counts(s, state)
                && op.notice(state, reply) is None && op.countable(state, reply)
        }),
{
    wire::law_register_read_asks(op);
    wire::law_register_read_asks(op.at(ReadStage::Data { attempt: 0 }));
    bus::law_window_digits(op.target);
    frame::law_command_layout(false, true, op.func, op.addr, op.len);
    frame::law_command_layout(true, true, FUNC_BUS, REG_BUS_INTERRUPT, 2);
    match op.stage {
        ReadStage::Window(b) => {
            frame::law_command_layout(true, true, FUNC_BACKPLANE, b.register(), 1);
        },
        ReadStage::Status { attempt, .. } => {
            let noted = state.with_status(reply.first).logged(op.command(), reply.first);
            bus::law_refused_reads(noted, op.func, attempt);
        },
        _ => {},
    }
}

/// The place of a word in its window, with the word flag.
pub proof fn lemma_flagged(addr: u32)
    ensures
        (addr & BACKPLANE_ADDRESS_MASK) | BACKPLANE_ADDRESS_32BIT_FLAG == addr % 0x8000 + 0x8000,
{
    wire::law_backplane_register(addr, 0, 4);
}

} // verus!
