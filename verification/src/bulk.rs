//! Moving blocks of bytes over the backplane, a transfer at a time.

use vstd::prelude::*;

use crate::buffer;
use crate::buffer::{word_count, WordBuf};
use crate::bus;
use crate::bus::{read_status, BusState, SpiBus, Decision, WindowByte};
use crate::consts::{
    BACKPLANE_ADDRESS_32BIT_FLAG, BACKPLANE_ADDRESS_MASK, BACKPLANE_MAX_TRANSFER_SIZE,
    BACKPLANE_WINDOW_SIZE, FUNC_BACKPLANE, INC_ADDR, READ, WRITE,
};
use crate::frame;
use crate::frame::cmd_word;
use crate::io::{Action, Notice, Reply, Tally};
use crate::oplog::UNINSTRUMENTED;
use crate::register;
use crate::register::{clear_latch, clear_latch_cmd, record_window_write};
use crate::wire;

verus! {

/// How many of the `left` bytes at `addr` go in one transfer: as many as a transfer carries, and
/// none past the end of the window.
pub open spec fn chunk_len(addr: u32, left: int) -> int {
    let room = BACKPLANE_WINDOW_SIZE - (addr & BACKPLANE_ADDRESS_MASK);
    let most = if room < BACKPLANE_MAX_TRANSFER_SIZE {
        room
    } else {
        BACKPLANE_MAX_TRANSFER_SIZE as int
    };
    if left < most {
        left
    } else {
        most
    }
}

/// The command word of the transfer of `len` bytes at `addr`. The bridge is asked to move words.
pub open spec fn transfer_command(write: bool, addr: u32, len: int) -> u32 {
    frame::command(
        write,
        INC_ADDR,
        FUNC_BACKPLANE,
        (addr & BACKPLANE_ADDRESS_MASK) | BACKPLANE_ADDRESS_32BIT_FLAG,
        len as u32,
    )
}

/// A transfer moves at least one byte, no more than a transfer carries, and stays in its window.
pub proof fn law_transfer_in_window(addr: u32, left: int)
    requires
        left >= 1,
    ensures
        1 <= chunk_len(addr, left) <= BACKPLANE_MAX_TRANSFER_SIZE,
        chunk_len(addr, left) <= left,
        (addr & BACKPLANE_ADDRESS_MASK) + chunk_len(addr, left) <= BACKPLANE_WINDOW_SIZE,
{
    assert(addr & 0x7FFF <= 0x7FFF) by (bit_vector);
}

/// How many of the `left` bytes at `addr` go in one transfer.
fn next_chunk(addr: u32, left: usize) -> (r: usize)
    requires
        left >= 1,
    ensures
        r == chunk_len(addr, left as int),
        1 <= r <= BACKPLANE_MAX_TRANSFER_SIZE,
        r <= left,
{
    proof {
        law_transfer_in_window(addr, left as int);
    }
    let window_offs: u32 = addr & BACKPLANE_ADDRESS_MASK;
    let window_remaining: usize = BACKPLANE_WINDOW_SIZE - window_offs as usize;
    let mut len: usize = left;
    if BACKPLANE_MAX_TRANSFER_SIZE < len {
        len = BACKPLANE_MAX_TRANSFER_SIZE;
    }
    if window_remaining < len {
        len = window_remaining;
    }
    len
}

/// Whether a buffer of `size` bytes holds the first transfer of `left` bytes at `addr`, with one
/// word before it.
pub fn block_fits(addr: u32, left: usize, size: usize) -> (r: bool)
    ensures
        r == (left > 0 ==> 4 + chunk_len(addr, left as int) <= size),
{
    left == 0 || 4 + next_chunk(addr, left) <= size
}

/// The command word of a transfer.
fn transfer_cmd(write: bool, addr: u32, len: usize) -> (r: u32)
    requires
        len <= BACKPLANE_MAX_TRANSFER_SIZE,
    ensures
        r == transfer_command(write, addr, len as int),
{
    cmd_word(
        write,
        INC_ADDR,
        FUNC_BACKPLANE,
        (addr & BACKPLANE_ADDRESS_MASK) | BACKPLANE_ADDRESS_32BIT_FLAG,
        len as u32,
    )
}

/// How far a block read has come; each stage but the last waits for a reply.
#[derive(Clone, Copy, PartialEq, Eq, Structural, Debug)]
pub enum BpReadStage {
    /// A window register is being written.
    Window(WindowByte),
    /// A transfer is being read into the buffer, for the time `attempt`.
    Data { attempt: usize },
    /// The status word is being read.
    Status { attempt: usize },
    /// The latched interrupt is being cleared before the next attempt.
    Clear { attempt: usize },
    Done,
}

/// A block read under way.
#[derive(Clone, Copy, PartialEq, Eq, Structural, Debug)]
pub struct BpRead {
    /// The backplane address of the transfer under way.
    pub addr: u32,
    /// How many bytes have been delivered.
    pub done: usize,
    /// How many bytes are to be read.
    pub total: usize,
    pub stage: BpReadStage,
}

impl BpRead {
    /// The bytes to read are within the address space; until the end there is something left to
    /// read; an attempt that is followed by another is not the last.
    pub open spec fn wf(self) -> bool {
        &&& self.done <= self.total
        &&& self.addr + (self.total - self.done) <= u32::MAX
        &&& match self.stage {
            BpReadStage::Window(_) => self.done < self.total,
            BpReadStage::Data { attempt } => self.done < self.total && attempt <= bus::READ_RETRIES,
            BpReadStage::Status { attempt } => self.done < self.total && attempt
                <= bus::READ_RETRIES,
            BpReadStage::Clear { attempt } => self.done < self.total && attempt < bus::READ_RETRIES,
            BpReadStage::Done => self.done == self.total,
        }
    }

    /// The length of the transfer under way.
    pub open spec fn chunk(self) -> int {
        chunk_len(self.addr, self.total - self.done)
    }

    /// The command word of the transfer under way.
    pub open spec fn command(self) -> u32 {
        transfer_command(READ, self.addr, self.chunk())
    }

    /// A buffer of `size` bytes holds the transfer under way with its response delay.
    pub open spec fn fits(self, size: int) -> bool {
        self.stage != BpReadStage::Done ==> 4 + self.chunk() <= size
    }

    /// What the read waits for. One extra word comes first, for the response delay.
    pub open spec fn pending(self) -> Option<Action> {
        match self.stage {
            BpReadStage::Window(b) => Some(b.write_for(self.addr)),
            BpReadStage::Data { .. } => Some(
                Action::ReadBuf {
                    cmd: self.command(),
                    words: (buffer::words_for(self.chunk()) + 1) as usize,
                },
            ),
            BpReadStage::Status { .. } => Some(bus::status_read()),
            BpReadStage::Clear { .. } => Some(register::clear_unavailable()),
            BpReadStage::Done => None,
        }
    }

    /// The read with its stage replaced.
    pub open spec fn at(self, stage: BpReadStage) -> BpRead {
        BpRead { stage, ..self }
    }

    /// The read with the transfer under way delivered.
    pub open spec fn advanced(self) -> BpRead {
        BpRead {
            addr: (self.addr + self.chunk()) as u32,
            done: (self.done + self.chunk()) as usize,
            ..self
        }
    }

    /// The state of the bus and the read from the window register `from` on.
    pub open spec fn enter(self, state: BusState, from: Option<WindowByte>) -> (BusState, BpRead) {
        match bus::first_stale(state.window, self.addr, from) {
            Some(b) => (state, self.at(BpReadStage::Window(b))),
            None => (state.at_window(self.addr), self.at(BpReadStage::Data { attempt: 0 })),
        }
    }

    /// The state of the bus and the read at the start of a transfer: the window comes first, and
    /// with nothing left the read is done.
    pub open spec fn begin(self, state: BusState) -> (BusState, BpRead) {
        if self.done == self.total {
            (state, self.at(BpReadStage::Done))
        } else {
            self.enter(state, Some(WindowByte::High))
        }
    }

    /// The state of the bus once the status word after a transfer is known.
    pub open spec fn noted(self, state: BusState, status: u32) -> BusState {
        state.with_status(status).logged(self.command(), status).after_race(state.status, status)
    }

    /// The state of the bus, the read and the delivered data after a reply. The bytes of a
    /// transfer that is not read again are delivered, without the response delay.
    pub open spec fn step(self, state: BusState, reply: Reply, buf: Seq<u8>, data: Seq<u8>) -> (
        BusState,
        BpRead,
        Seq<u8>,
    ) {
        match self.stage {
            BpReadStage::Window(b) => {
                let (next, op) = self.enter(
                    state.logged(
                        frame::command(WRITE, INC_ADDR, FUNC_BACKPLANE, b.register(), 1),
                        UNINSTRUMENTED,
                    ),
                    b.after(),
                );
                (next, op, data)
            },
            BpReadStage::Data { attempt } => (
                state,
                self.at(BpReadStage::Status { attempt }),
                data,
            ),
            BpReadStage::Status { attempt } => {
                let noted = self.noted(state, reply.first);
                let judged = noted.after_reissue(FUNC_BACKPLANE, attempt);
                if noted.decision(FUNC_BACKPLANE, attempt) == Decision::Retry {
                    (judged, self.at(BpReadStage::Clear { attempt }), data)
                } else {
                    let (next, op) = self.advanced().begin(judged);
                    (
                        next,
                        op,
                        buffer::overwritten(
                            data,
                            self.done as int,
                            buf.subrange(4, 4 + self.chunk()),
                        ),
                    )
                }
            },
            BpReadStage::Clear { attempt } => (
                state.logged(register::clear_command(), UNINSTRUMENTED),
                self.at(BpReadStage::Data { attempt: (attempt + 1) as usize }),
                data,
            ),
            BpReadStage::Done => (state, self, data),
        }
    }

    /// The tally that is due at that reply, if one is.
    pub open spec fn tally(self, state: BusState, reply: Reply) -> Option<Tally> {
        match self.stage {
            BpReadStage::Status { .. } => state.race_tally(state.status, reply.first),
            _ => None,
        }
    }

    /// What is reported at that reply.
    pub open spec fn notice(self, state: BusState, reply: Reply) -> Option<Notice> {
        match self.stage {
            BpReadStage::Status { attempt } => state.with_status(reply.first).reissue_notice(
                FUNC_BACKPLANE,
                attempt,
            ),
            _ => None,
        }
    }

    /// There is room to count what that reply makes count.
    pub open spec fn countable(self, state: BusState, reply: Reply) -> bool {
        match self.stage {
            BpReadStage::Status { attempt } => state.can_account() && state.with_status(
                reply.first,
            ).can_reissue(FUNC_BACKPLANE, attempt),
            _ => true,
        }
    }

    /// How many replies the read takes at most.
    pub open spec fn replies_left(self) -> int {
        15 * (self.total - self.done) + match self.stage {
            BpReadStage::Window(WindowByte::High) => 14int,
            BpReadStage::Window(WindowByte::Mid) => 13int,
            BpReadStage::Window(WindowByte::Low) => 12int,
            BpReadStage::Data { attempt } => 3 * (bus::READ_RETRIES - attempt) + 2,
            BpReadStage::Status { attempt } => 3 * (bus::READ_RETRIES - attempt) + 1,
            BpReadStage::Clear { attempt } => 3 * (bus::READ_RETRIES - attempt),
            BpReadStage::Done => 0,
        }
    }

    /// What the read waits for; nothing once it is done.
    pub fn action(&self) -> (r: Option<Action>)
        requires
            self.wf(),
        ensures
            r == self.pending(),
    {
        match self.stage {
            BpReadStage::Window(b) => Some(b.write(self.addr)),
            BpReadStage::Data { .. } => {
                let len: usize = next_chunk(self.addr, self.total - self.done);
                Some(
                    Action::ReadBuf {
                        cmd: transfer_cmd(READ, self.addr, len),
                        words: word_count(len) + 1,
                    },
                )
            },
            BpReadStage::Status { .. } => Some(read_status()),
            BpReadStage::Clear { .. } => Some(clear_latch()),
            BpReadStage::Done => None,
        }
    }

    /// Whether there is room to count what that reply makes count.
    pub fn can_resume<PWR, SPI>(&self, bus: &SpiBus<PWR, SPI>, reply: Reply) -> (r: bool)
        requires
            bus.wf(),
        ensures
            r == self.countable(bus@, reply),
    {
        match self.stage {
            BpReadStage::Status { attempt } => bus.can_account() && bus.can_reissue(
                reply.first,
                FUNC_BACKPLANE,
                attempt,
            ),
            _ => true,
        }
    }

    /// Whether a buffer of `size` bytes holds the transfer under way with its response delay.
    pub fn fits_in(&self, size: usize) -> (r: bool)
        requires
            self.wf(),
        ensures
            r == self.fits(size as int),
    {
        match self.stage {
            BpReadStage::Done => true,
            _ => 4 + next_chunk(self.addr, self.total - self.done) <= size,
        }
    }

    /// Takes the reply to what the read waits for. `buf` is the buffer that transfers are read
    /// into, `data` is where their bytes go.
    pub fn resume<PWR, SPI>(
        &mut self,
        bus: &mut SpiBus<PWR, SPI>,
        reply: Reply,
        buf: &WordBuf,
        data: &mut [u8],
    ) -> (r: (Option<Tally>, Option<Notice>))
        requires
            old(bus).wf(),
            old(self).wf(),
            old(self).pending() is Some,
            old(self).countable(old(bus)@, reply),
            buf.wf(),
            old(self).fits(buf.size()),
            old(data)@.len() == old(self).total,
        ensures
            final(bus).wf(),
            final(bus).same_hardware(old(bus)),
            final(self).wf(),
            (final(bus)@, *final(self), final(data)@) == old(self).step(
                old(bus)@,
                reply,
                buf@,
                old(data)@,
            ),
            r.0 == old(self).tally(old(bus)@, reply),
            r.1 == old(self).notice(old(bus)@, reply),
    {
        match self.stage {
            BpReadStage::Window(b) => {
                record_window_write(bus, b);
                self.enter_window(bus, b.next());
                (None, None)
            },
            BpReadStage::Data { attempt } => {
                self.stage = BpReadStage::Status { attempt };
                (None, None)
            },
            BpReadStage::Status { attempt } => {
                let len: usize = next_chunk(self.addr, self.total - self.done);
                let before: u32 = bus.status();
                bus.set_status(reply.first);
                bus.record(transfer_cmd(READ, self.addr, len), reply.first);
                let tally = bus.account_race(before, reply.first);
                let (decision, notice) = bus.reissue(FUNC_BACKPLANE, attempt);
                match decision {
                    Decision::Retry => {
                        self.stage = BpReadStage::Clear { attempt };
                    },
                    Decision::Trust | Decision::GiveUp => {
                        buf.copy_out(4, data, self.done, len);
                        self.addr = self.addr + len as u32;
                        self.done = self.done + len;
                        if self.done == self.total {
                            self.stage = BpReadStage::Done;
                        } else {
                            self.enter_window(bus, Some(WindowByte::High));
                        }
                    },
                }
                (tally, notice)
            },
            BpReadStage::Clear { attempt } => {
                bus.record(clear_latch_cmd(), UNINSTRUMENTED);
                self.stage = BpReadStage::Data { attempt: attempt + 1 };
                (None, None)
            },
            BpReadStage::Done => (None, None),
        }
    }

    /// Goes on with the window register `from`.
    fn enter_window<PWR, SPI>(&mut self, bus: &mut SpiBus<PWR, SPI>, from: Option<WindowByte>)
        requires
            old(bus).wf(),
            old(self).done < old(self).total,
            old(self).addr + (old(self).total - old(self).done) <= u32::MAX,
        ensures
            final(bus).wf(),
            final(bus).same_hardware(old(bus)),
            final(self).wf(),
            (final(bus)@, *final(self)) == old(self).enter(old(bus)@, from),
    {
        match bus.backplane_set_window(self.addr, from) {
            Some(b) => {
                self.stage = BpReadStage::Window(b);
            },
            None => {
                self.stage = BpReadStage::Data { attempt: 0 };
            },
        }
    }
}

/// How far a block write has come; each stage but the last waits for a reply.
#[derive(Clone, Copy, PartialEq, Eq, Structural, Debug)]
pub enum BpWriteStage {
    /// A window register is being written.
    Window(WindowByte),
    /// A transfer is being written from the buffer.
    Data,
    Done,
}

/// A block write under way.
#[derive(Clone, Copy, PartialEq, Eq, Structural, Debug)]
pub struct BpWrite {
    /// The backplane address of the transfer under way.
    pub addr: u32,
    /// How many bytes have been written.
    pub done: usize,
    /// How many bytes are to be written.
    pub total: usize,
    pub stage: BpWriteStage,
}

impl BpWrite {
    /// The bytes to write are within the address space; until the end there is something left to
    /// write.
    pub open spec fn wf(self) -> bool {
        &&& self.done <= self.total
        &&& self.addr + (self.total - self.done) <= u32::MAX
        &&& self.stage == BpWriteStage::Done <==> self.done == self.total
    }

    /// The length of the transfer under way.
    pub open spec fn chunk(self) -> int {
        chunk_len(self.addr, self.total - self.done)
    }

    /// The command word of the transfer under way.
    pub open spec fn command(self) -> u32 {
        transfer_command(WRITE, self.addr, self.chunk())
    }

    /// A buffer of `size` bytes holds the transfer under way with its command word.
    pub open spec fn fits(self, size: int) -> bool {
        self.done < self.total ==> 4 + self.chunk() <= size
    }

    /// What the write waits for. The command word comes first in the buffer.
    pub open spec fn pending(self) -> Option<Action> {
        match self.stage {
            BpWriteStage::Window(b) => Some(b.write_for(self.addr)),
            BpWriteStage::Data => Some(
                Action::WriteBuf { words: (buffer::words_for(self.chunk()) + 1) as usize },
            ),
            BpWriteStage::Done => None,
        }
    }

    /// The write with its stage replaced.
    pub open spec fn at(self, stage: BpWriteStage) -> BpWrite {
        BpWrite { stage, ..self }
    }

    /// The write with the transfer under way made.
    pub open spec fn advanced(self) -> BpWrite {
        BpWrite {
            addr: (self.addr + self.chunk()) as u32,
            done: (self.done + self.chunk()) as usize,
            ..self
        }
    }

    /// The state of the bus, the write and the words of the buffer from the window register `from`
    /// on. The command word goes into the buffer once the window is reached.
    pub open spec fn enter(self, state: BusState, from: Option<WindowByte>, words: Seq<u32>) -> (
        BusState,
        BpWrite,
        Seq<u32>,
    ) {
        match bus::first_stale(state.window, self.addr, from) {
            Some(b) => (state, self.at(BpWriteStage::Window(b)), words),
            None => (
                state.at_window(self.addr),
                self.at(BpWriteStage::Data),
                words.update(0, self.command()),
            ),
        }
    }

    /// The words of the buffer with the bytes of the transfer under way put in them, behind the
    /// place of the command word.
    pub open spec fn loaded(self, data: Seq<u8>, words: Seq<u32>) -> Seq<u32> {
        buffer::words_of(
            buffer::overwritten(
                buffer::bytes_of(words),
                4,
                data.subrange(self.done as int, self.done + self.chunk()),
            ),
        )
    }

    /// The state of the bus, the write and the words of the buffer at the start of a transfer: the
    /// bytes go into the buffer, then the window is set. With nothing left the write is done.
    pub open spec fn begin(self, state: BusState, data: Seq<u8>, words: Seq<u32>) -> (
        BusState,
        BpWrite,
        Seq<u32>,
    ) {
        if self.done == self.total {
            (state, self.at(BpWriteStage::Done), words)
        } else {
            self.enter(state, Some(WindowByte::High), self.loaded(data, words))
        }
    }

    /// The state of the bus, the write and the words of the buffer after a reply.
    pub open spec fn step(self, state: BusState, data: Seq<u8>, words: Seq<u32>) -> (
        BusState,
        BpWrite,
        Seq<u32>,
    ) {
        match self.stage {
            BpWriteStage::Window(b) => self.enter(
                state.logged(
                    frame::command(WRITE, INC_ADDR, FUNC_BACKPLANE, b.register(), 1),
                    UNINSTRUMENTED,
                ),
                b.after(),
                words,
            ),
            BpWriteStage::Data => self.advanced().begin(
                state.logged(self.command(), UNINSTRUMENTED),
                data,
                words,
            ),
            BpWriteStage::Done => (state, self, words),
        }
    }

    /// How many replies the write takes at most.
    pub open spec fn replies_left(self) -> int {
        4 * (self.total - self.done) + match self.stage {
            BpWriteStage::Window(WindowByte::High) => 4int,
            BpWriteStage::Window(WindowByte::Mid) => 3int,
            BpWriteStage::Window(WindowByte::Low) => 2int,
            BpWriteStage::Data => 1,
            BpWriteStage::Done => 0,
        }
    }

    /// What the write waits for; nothing once it is done.
    pub fn action(&self) -> (r: Option<Action>)
        requires
            self.wf(),
        ensures
            r == self.pending(),
    {
        match self.stage {
            BpWriteStage::Window(b) => Some(b.write(self.addr)),
            BpWriteStage::Data => {
                let len: usize = next_chunk(self.addr, self.total - self.done);
                Some(Action::WriteBuf { words: word_count(len) + 1 })
            },
            BpWriteStage::Done => None,
        }
    }

    /// Whether a buffer of `size` bytes holds the transfer under way with its command word, and the
    /// one after it, if the reply that is waited for ends the one under way.
    pub fn fits_in(&self, size: usize) -> (r: bool)
        requires
            self.wf(),
        ensures
            r == (self.fits(size as int) && (self.stage == BpWriteStage::Data
                ==> self.advanced().fits(size as int))),
    {
        if !block_fits(self.addr, self.total - self.done, size) {
            return false;
        }
        match self.stage {
            BpWriteStage::Data => {
                let len: usize = next_chunk(self.addr, self.total - self.done);
                block_fits(self.addr + len as u32, self.total - self.done - len, size)
            },
            _ => true,
        }
    }

    /// Takes the reply to what the write waits for. `data` holds the bytes to write, `buf` is the
    /// buffer that transfers are written from.
    pub fn resume<PWR, SPI>(
        &mut self,
        bus: &mut SpiBus<PWR, SPI>,
        data: &[u8],
        buf: &mut WordBuf,
    )
        requires
            old(bus).wf(),
            old(self).wf(),
            old(self).pending() is Some,
            data@.len() == old(self).total,
            old(buf).wf(),
            old(self).fits(old(buf).size()),
            old(self).stage == BpWriteStage::Data ==> old(self).advanced().fits(old(buf).size()),
        ensures
            final(bus).wf(),
            final(bus).same_hardware(old(bus)),
            final(self).wf(),
            final(buf).wf(),
            final(buf).size() == old(buf).size(),
            (final(bus)@, *final(self), final(buf).words()) == old(self).step(
                old(bus)@,
                data@,
                old(buf).words(),
            ),
    {
        match self.stage {
            BpWriteStage::Window(b) => {
                record_window_write(bus, b);
                self.enter_window(bus, b.next(), buf);
            },
            BpWriteStage::Data => {
                let len: usize = next_chunk(self.addr, self.total - self.done);
                bus.record(transfer_cmd(WRITE, self.addr, len), UNINSTRUMENTED);
                self.addr = self.addr + len as u32;
                self.done = self.done + len;
                assert(*self == old(self).advanced());
                self.start(bus, data, buf);
            },
            BpWriteStage::Done => {},
        }
    }

    /// Starts a transfer.
    fn start<PWR, SPI>(&mut self, bus: &mut SpiBus<PWR, SPI>, data: &[u8], buf: &mut WordBuf)
        requires
            old(bus).wf(),
            old(self).done <= old(self).total,
            old(self).addr + (old(self).total - old(self).done) <= u32::MAX,
            data@.len() == old(self).total,
            old(buf).wf(),
            old(self).fits(old(buf).size()),
        ensures
            final(bus).wf(),
            final(bus).same_hardware(old(bus)),
            final(self).wf(),
            final(buf).wf(),
            final(buf).size() == old(buf).size(),
            (final(bus)@, *final(self), final(buf).words()) == old(self).begin(
                old(bus)@,
                data@,
                old(buf).words(),
            ),
    {
        if self.done == self.total {
            self.stage = BpWriteStage::Done;
        } else {
            let len: usize = next_chunk(self.addr, self.total - self.done);
            buf.copy_in(4, data, self.done, len);
            self.enter_window(bus, Some(WindowByte::High), buf);
        }
    }

    /// Goes on with the window register `from`.
    fn enter_window<PWR, SPI>(
        &mut self,
        bus: &mut SpiBus<PWR, SPI>,
        from: Option<WindowByte>,
        buf: &mut WordBuf,
    )
        requires
            old(bus).wf(),
            old(self).done < old(self).total,
            old(self).addr + (old(self).total - old(self).done) <= u32::MAX,
            old(buf).wf(),
            old(self).fits(old(buf).size()),
        ensures
            final(bus).wf(),
            final(bus).same_hardware(old(bus)),
            final(self).wf(),
            final(buf).wf(),
            final(buf).size() == old(buf).size(),
            (final(bus)@, *final(self), final(buf).words()) == old(self).enter(
                old(bus)@,
                from,
                old(buf).words(),
            ),
    {
        let len: usize = next_chunk(self.addr, self.total - self.done);
        match bus.backplane_set_window(self.addr, from) {
            Some(b) => {
                self.stage = BpWriteStage::Window(b);
            },
            None => {
                self.stage = BpWriteStage::Data;
                buf.set_head(transfer_cmd(WRITE, self.addr, len));
            },
        }
    }
}

/// The read of `len` bytes at `addr`, not begun yet.
pub open spec fn block_read(addr: u32, len: usize) -> BpRead {
    BpRead { addr, done: 0, total: len, stage: BpReadStage::Done }
}

/// The write of `len` bytes at `addr`, not begun yet.
pub open spec fn block_write(addr: u32, len: usize) -> BpWrite {
    BpWrite { addr, done: 0, total: len, stage: BpWriteStage::Done }
}

impl<PWR, SPI> SpiBus<PWR, SPI> {
    /// Starts to read `len` bytes of the backplane.
    pub fn bp_read(&mut self, addr: u32, len: usize) -> (r: BpRead)
        requires
            old(self).wf(),
            addr % 4 == 0,
            addr + len <= u32::MAX,
        ensures
            final(self).wf(),
            final(self).same_hardware(old(self)),
            r.wf(),
            (final(self)@, r) == block_read(addr, len).begin(old(self)@),
    {
        let mut r = BpRead { addr, done: 0, total: len, stage: BpReadStage::Done };
        if len > 0 {
            r.enter_window(self, Some(WindowByte::High));
        }
        r
    }

    /// Starts to write `data` to the backplane.
    pub fn bp_write(&mut self, addr: u32, data: &[u8], buf: &mut WordBuf) -> (r: BpWrite)
        requires
            old(self).wf(),
            addr % 4 == 0,
            addr + data@.len() <= u32::MAX,
            old(buf).wf(),
            block_write(addr, data@.len() as usize).fits(old(buf).size()),
        ensures
            final(self).wf(),
            final(self).same_hardware(old(self)),
            r.wf(),
            final(buf).wf(),
            final(buf).size() == old(buf).size(),
            (final(self)@, r, final(buf).words()) == block_write(
                addr,
                data@.len() as usize,
            ).begin(old(self)@, data@, old(buf).words()),
    {
        let len: usize = data.len();
        let mut r = BpWrite { addr, done: 0, total: len, stage: BpWriteStage::Done };
        r.start(self, data, buf);
        r
    }
}

/// Whatever the device replies, a block read gets closer to its end with every reply.
pub proof fn law_block_read_ends(
    op: BpRead,
    state: BusState,
    reply: Reply,
    buf: Seq<u8>,
    data: Seq<u8>,
)
    requires
        op.wf(),
        op.pending() is Some,
    ensures
        op.step(state, reply, buf, data).1.wf(),
        0 <= op.step(state, reply, buf, data).1.replies_left() < op.replies_left(),
{
    law_transfer_in_window(op.addr, op.total - op.done);
}

/// A block write gets closer to its end with every reply.
pub proof fn law_block_write_ends(op: BpWrite, state: BusState, data: Seq<u8>, words: Seq<u32>)
    requires
        op.wf(),
        op.pending() is Some,
    ensures
        op.step(state, data, words).1.wf(),
        0 <= op.step(state, data, words).1.replies_left() < op.replies_left(),
{
    law_transfer_in_window(op.addr, op.total - op.done);
}

/// A transfer is as long as it can be: it moves all that is left, or 64 bytes, or all up to the end
/// of the window.
pub proof fn law_transfer_is_longest(addr: u32, left: int)
    requires
        left >= 1,
    ensures
        ({
            let len = chunk_len(addr, left);
            let room = 0x8000 - addr % 0x8000;
            &&& 1 <= len <= left
            &&& len <= 64
            &&& len <= room
            &&& len == left || len == 64 || len == room
        }),
{
    law_transfer_in_window(addr, left);
    lemma_offset(addr);
}

/// The offset of an address in its window.
proof fn lemma_offset(addr: u32)
    ensures
        addr & BACKPLANE_ADDRESS_MASK == addr % 0x8000,
{
    assert(addr & 0x7FFF == addr % 0x8000) by (bit_vector);
}

/// A transfer needs a buffer for its bytes and one word before them, and none once all is moved.
pub proof fn law_buffer_that_fits(read: BpRead, write: BpWrite, size: int)
    requires
        read.wf(),
        write.wf(),
    ensures
        read.fits(size) == (read.done == read.total || 4 + read.chunk() <= size),
        write.fits(size) == (write.done == write.total || 4 + write.chunk() <= size),
        read.chunk() == chunk_len(read.addr, read.total - read.done),
        write.chunk() == chunk_len(write.addr, write.total - write.done),
{
}

/// A block access starts at its address with nothing moved. With nothing to move it is done at
/// once; else the window registers that have to change come first, then the data.
pub proof fn law_block_access_starts(
    addr: u32,
    data: Seq<u8>,
    words: Seq<u32>,
    state: BusState,
    size: int,
)
    requires
        data.len() <= usize::MAX,
        words.len() == buffer::words_for(size),
        data.len() > 0 ==> 4 + chunk_len(addr, data.len() as int) <= size,
    ensures
        ({
            let len = data.len() as usize;
            let (s, r) = block_read(addr, len).begin(state);
            let (t, w, filled) = block_write(addr, len).begin(state, data, words);
            let next = bus::first_stale(state.window, addr, Some(WindowByte::High));
            let n = chunk_len(addr, data.len() as int);
            &&& r.addr == addr && r.done == 0 && r.total == data.len()
            &&& w.addr == addr && w.done == 0 && w.total == data.len()
            &&& s == t
            &&& s.status == state.status && s.log == state.log && bus::same_counts(s, state)
            &&& data.len() == 0 ==> r.stage == BpReadStage::Done && w.stage == BpWriteStage::Done
                && s == state && filled == words
            &&& data.len() > 0 && next is Some ==> s == state && r.stage == BpReadStage::Window(
                next.unwrap(),
            ) && w.stage == BpWriteStage::Window(next.unwrap())
            &&& data.len() > 0 && next is None ==> s.window == addr - addr % 0x8000 && r.stage == (
            BpReadStage::Data { attempt: 0 }) && w.stage == BpWriteStage::Data && filled[0]
                == wire::word(true, 1, addr % 0x8000 + 0x8000, n)
            &&& data.len() > 0 ==> filled.len() == words.len() && forall|i: int|
                0 <= i < n ==> #[trigger] buffer::bytes_of(filled)[4 + i] == data[i]
        }),
{
    let len = data.len() as usize;
    bus::law_window_digits(addr);
    if data.len() > 0 {
        law_transfer_in_window(addr, data.len() as int);
        lemma_filled(block_write(addr, len), data, words, size);
    }
}

/// The words of the buffer once the bytes of a transfer, and then its command word, were put in.
proof fn lemma_filled(op: BpWrite, data: Seq<u8>, words: Seq<u32>, size: int)
    requires
        op.done < op.total,
        op.total == data.len(),
        words.len() == buffer::words_for(size),
        4 + op.chunk() <= size,
    ensures
        ({
            let loaded = op.loaded(data, words);
            let headed = loaded.update(0, op.command());
            &&& loaded.len() == words.len()
            &&& words.len() >= 2
            &&& op.command() == wire::word(true, 1, op.addr % 0x8000 + 0x8000, op.chunk())
            &&& forall|i: int|
                0 <= i < op.chunk() ==> #[trigger] buffer::bytes_of(loaded)[4 + i] == data[op.done
                    + i]
            &&& forall|i: int|
                0 <= i < op.chunk() ==> #[trigger] buffer::bytes_of(headed)[4 + i] == data[op.done
                    + i]
        }),
{
    law_transfer_in_window(op.addr, op.total - op.done);
    lemma_offset(op.addr);
    let chunk = op.chunk();
    let d = data.subrange(op.done as int, op.done + chunk);
    let loaded = op.loaded(data, words);
    let headed = loaded.update(0, op.command());
    buffer::lemma_overwritten_words(words, 4, d);
    let after = buffer::bytes_of(loaded);
    assert forall|i: int| 0 <= i < chunk implies #[trigger] after[4 + i] == data[op.done + i] by {
        assert(d[i] == data[op.done + i]);
    }
    assert forall|i: int| 0 <= i < chunk implies #[trigger] buffer::bytes_of(headed)[4 + i]
        == data[op.done + i] by {
        assert(after[4 + i] == data[op.done + i]);
        assert(headed[(4 + i) / 4] == loaded[(4 + i) / 4]);
    }
    let at = (op.addr & BACKPLANE_ADDRESS_MASK) | BACKPLANE_ADDRESS_32BIT_FLAG;
    frame::law_command_layout(true, true, FUNC_BACKPLANE, at, chunk as u32);
    register::lemma_flagged(op.addr);
}

/// How a block read goes on after each exchange. What arrived in the buffer is kept while the
/// status is read. If bit 0 of the status says that the device had no data, and fewer than three
/// reads have been repeated, the latch is cleared and the same transfer read again; else the bytes
/// behind the first word of the buffer become the next bytes of the data, and no others change, and
/// the read goes on behind them. Each attempt is counted against the packet that may have arrived
/// during it and recorded with its status; everything else is recorded without one.
pub proof fn law_block_read_course(
    op: BpRead,
    state: BusState,
    reply: Reply,
    buf: Seq<u8>,
    data: Seq<u8>,
)
    requires
        op.wf(),
        op.pending() is Some,
        data.len() == op.total,
        4 + op.chunk() <= buf.len(),
    ensures
        ({
            let (s, n, out) = op.step(state, reply, buf, data);
            let transfer = op.at(BpReadStage::Data { attempt: 0 }).pending();
            let chunk = chunk_len(op.addr, op.total - op.done);
            let noted = BusState { status: reply.first, ..state };
            &&& n.total == op.total
            &&& match op.stage {
                BpReadStage::Status { attempt } => {
                    let again = reply.first % 2 == 1 && attempt < 3;
                    &&& s.status == reply.first
                    &&& s.log == state.log.record(wire::sent(transfer), reply.first)
                    &&& bus::same_counts(
                        s,
                        noted.after_race(state.status, reply.first).after_reissue(1, attempt),
                    )
                    &&& op.tally(state, reply) == noted.race_tally(state.status, reply.first)
                    &&& op.notice(state, reply) == noted.reissue_notice(1, attempt)
                    &&& op.countable(state, reply) == (state.bp_reads < 0xFFFF_FFFF
                        && noted.can_reissue(1, attempt))
                    &&& again ==> n == op.at(BpReadStage::Clear { attempt }) && out == data
                        && s.window == state.window
                    &&& !again ==> {
                        &&& n.addr == op.addr + chunk
                        &&& n.done == op.done + chunk
                        &&& out == data.take(op.done as int) + buf.subrange(4, 4 + chunk)
                            + data.skip(op.done + chunk)
                        &&& if n.done == n.total {
                            n.stage == BpReadStage::Done && s.window == state.window
                        } else {
                            match bus::first_stale(state.window, n.addr, Some(WindowByte::High)) {
                                Some(b) => n.stage == BpReadStage::Window(b) && s.window
                                    == state.window,
                                None => n.stage == (BpReadStage::Data { attempt: 0 }) && s.window
                                    == n.addr - n.addr % 0x8000,
                            }
                        }
                    }
                },
                _ => {
                    &&& out == data && n.addr == op.addr && n.done == op.done
                    &&& s.status == state.status && bus::same_counts(s, state)
                    &&& op.tally(state, reply) is None && op.notice(state, reply) is None
                        && op.countable(state, reply)
                },
            }
            &&& match op.stage {
                BpReadStage::Window(b) => {
                    &&& s.log == state.log.record(wire::sent(op.pending()), 0)
                    &&& match bus::first_stale(state.window, op.addr, b.after()) {
                        Some(c) => n.stage == BpReadStage::Window(c) && s.window == state.window,
                        None => n.stage == (BpReadStage::Data { attempt: 0 }) && s.window == op.addr
                            - op.addr % 0x8000,
                    }
                },
                BpReadStage::Data { attempt } => s == state && n.stage == (BpReadStage::Status {
                    attempt,
                }),
                BpReadStage::Clear { attempt } => {
                    &&& s.log == state.log.record(wire::sent(op.pending()), 0)
                    &&& s.window == state.window
                    &&& n.stage == (BpReadStage::Data { attempt: (attempt + 1) as usize })
                },
                _ => true,
            }
        }),
{
    let chunk = op.chunk();
    law_transfer_in_window(op.addr, op.total - op.done);
    bus::law_window_digits(op.addr);
    wire::law_block_read_asks(op);
    match op.stage {
        BpReadStage::Window(b) => {
            frame::law_command_layout(true, true, FUNC_BACKPLANE, b.register(), 1);
        },
        BpReadStage::Status { attempt } => {
            let (s, n, out) = op.step(state, reply, buf, data);
            bus::law_window_digits(n.addr);
            let noted = op.noted(state, reply.first);
            bus::law_refused_reads(noted, FUNC_BACKPLANE, attempt);
            buffer::law_overwritten_stretch(data, op.done as int, buf.subrange(4, 4 + chunk));
        },
        BpReadStage::Clear { .. } => {
            frame::law_command_layout(true, true, 0, 4, 2);
        },
        _ => {},
    }
}

/// How a block write goes on after each exchange: every exchange is recorded without a status, the
/// command word of a transfer as it stands at the head of the buffer. After a transfer the next
/// bytes of the data are in the buffer behind its first word, and once their window is reached their
/// command word is in that word.
pub proof fn law_block_write_course(
    op: BpWrite,
    state: BusState,
    data: Seq<u8>,
    words: Seq<u32>,
    size: int,
)
    requires
        op.wf(),
        op.pending() is Some,
        data.len() == op.total,
        words.len() == buffer::words_for(size),
        op.fits(size),
        op.stage == BpWriteStage::Data ==> op.advanced().fits(size),
        op.stage == BpWriteStage::Data ==> words[0] == op.command(),
    ensures
        ({
            let (s, n, out) = op.step(state, data, words);
            let chunk = chunk_len(op.addr, op.total - op.done);
            let left = chunk_len(n.addr, n.total - n.done);
            &&& n.total == op.total
            &&& s.status == state.status && bus::same_counts(s, state)
            &&& out.len() == words.len()
            &&& n.stage == BpWriteStage::Data ==> s.window == n.addr - n.addr % 0x8000 && out[0]
                == wire::word(true, 1, n.addr % 0x8000 + 0x8000, left)
            &&& n.stage != BpWriteStage::Data ==> s.window == state.window
            &&& match op.stage {
                BpWriteStage::Window(b) => {
                    &&& n.addr == op.addr && n.done == op.done
                    &&& s.log == state.log.record(wire::sent(op.pending()), 0)
                    &&& n.stage == match bus::first_stale(state.window, op.addr, b.after()) {
                        Some(c) => BpWriteStage::Window(c),
                        None => BpWriteStage::Data,
                    }
                    &&& forall|k: int| 1 <= k < words.len() ==> #[trigger] out[k] == words[k]
                },
                _ => {
                    &&& n.addr == op.addr + chunk && n.done == op.done + chunk
                    &&& s.log == state.log.record(words[0], 0)
                    &&& n.stage == if n.done == n.total {
                        BpWriteStage::Done
                    } else {
                        match bus::first_stale(state.window, n.addr, Some(WindowByte::High)) {
                            Some(c) => BpWriteStage::Window(c),
                            None => BpWriteStage::Data,
                        }
                    }
                    &&& n.done < n.total ==> forall|i: int|
                        0 <= i < left ==> #[trigger] buffer::bytes_of(out)[4 + i] == data[n.done
                            + i]
                },
            }
        }),
{
    let (s, n, out) = op.step(state, data, words);
    law_transfer_in_window(op.addr, op.total - op.done);
    bus::law_window_digits(n.addr);
    match op.stage {
        BpWriteStage::Window(b) => {
            wire::law_block_write_asks(op);
            frame::law_command_layout(true, true, FUNC_BACKPLANE, b.register(), 1);
            lemma_filled(op, data, words, size);
        },
        BpWriteStage::Data => {
            if n.done < n.total {
                lemma_filled(op.advanced(), data, words, size);
            }
        },
        BpWriteStage::Done => {},
    }
}

} // verus!
