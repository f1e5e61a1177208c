//! Reading and writing WLAN packets.

use vstd::prelude::*;

use crate::buffer;
use crate::buffer::{word_count, WordBuf};
use crate::bus;
use crate::bus::{read_status, writen, BusState, SpiBus};
use crate::consts::{
    FRAME_CONTROL_ABORT_F2_READ, FUNC_BACKPLANE, FUNC_WLAN, INC_ADDR, READ,
    REG_BACKPLANE_FRAME_CONTROL, STATUS_DATA_NOT_AVAILABLE, WRITE,
};
use crate::frame;
use crate::frame::cmd_word;
use crate::io::{Action, Error, Notice, Reply};
use crate::oplog::UNINSTRUMENTED;
use crate::wire;

verus! {

/// How long the device takes to empty its FIFO of a terminated packet; reading during that time
/// would bring zeros.
pub const ABORT_SETTLE_MILLIS: u64 = 1;

/// The write that terminates the open WLAN read frame.
pub open spec fn abort_write() -> Action {
    bus::register_write(
        FUNC_BACKPLANE,
        REG_BACKPLANE_FRAME_CONTROL,
        FRAME_CONTROL_ABORT_F2_READ as u32,
        1,
    )
}

/// The command word of `abort_write`.
pub open spec fn abort_command() -> u32 {
    frame::command(WRITE, INC_ADDR, FUNC_BACKPLANE, REG_BACKPLANE_FRAME_CONTROL, 1)
}

/// The write that terminates the open WLAN read frame. The device could not serve the read, so
/// what came back is padding and the frame it had started is still open. It is terminated rather
/// than read again, because that would clock out the remainder of a packet whose beginning is
/// already lost.
pub fn abort_f2_read() -> (r: Action)
    ensures
        r == abort_write(),
{
    writen(
        FUNC_BACKPLANE,
        REG_BACKPLANE_FRAME_CONTROL,
        FRAME_CONTROL_ABORT_F2_READ as u32,
        1,
    )
}

/// How far a packet read has come; each stage but the last waits for a reply.
#[derive(Clone, Copy, PartialEq, Eq, Structural, Debug)]
pub enum WlanReadStage {
    /// The packet is being read into the buffer.
    Data,
    /// The status word is being read.
    Status,
    /// The frame is being terminated.
    Abort,
    /// The device is given time to drop the packet.
    Settle,
    /// The packet is in the buffer, or there is none.
    Done { served: bool },
}

/// A packet read under way.
#[derive(Clone, Copy, PartialEq, Eq, Structural, Debug)]
pub struct WlanRead {
    /// The length of the buffer, in bytes.
    pub len: u32,
    pub stage: WlanReadStage,
}

impl WlanRead {
    /// The command word of the read.
    pub open spec fn command(self) -> u32 {
        frame::command(READ, INC_ADDR, FUNC_WLAN, 0, self.len)
    }

    /// The read with its stage replaced.
    pub open spec fn at(self, stage: WlanReadStage) -> WlanRead {
        WlanRead { stage, ..self }
    }

    /// What the read waits for.
    pub open spec fn pending(self) -> Option<Action> {
        match self.stage {
            WlanReadStage::Data => Some(
                Action::ReadBuf {
                    cmd: self.command(),
                    words: buffer::words_for(self.len as int) as usize,
                },
            ),
            WlanReadStage::Status => Some(bus::status_read()),
            WlanReadStage::Abort => Some(abort_write()),
            WlanReadStage::Settle => Some(Action::Sleep { millis: ABORT_SETTLE_MILLIS }),
            WlanReadStage::Done { .. } => None,
        }
    }

    /// The state of the bus and the read after a reply. A packet that the device could not serve
    /// is dropped.
    pub open spec fn step(self, state: BusState, reply: Reply) -> (BusState, WlanRead) {
        match self.stage {
            WlanReadStage::Data => (state, self.at(WlanReadStage::Status)),
            WlanReadStage::Status => (
                state.with_status(reply.first).logged(self.command(), reply.first),
                if reply.first & STATUS_DATA_NOT_AVAILABLE != 0 {
                    self.at(WlanReadStage::Abort)
                } else {
                    self.at(WlanReadStage::Done { served: true })
                },
            ),
            WlanReadStage::Abort => (
                state.logged(abort_command(), UNINSTRUMENTED),
                self.at(WlanReadStage::Settle),
            ),
            WlanReadStage::Settle => (
                state.after_abort(),
                self.at(WlanReadStage::Done { served: false }),
            ),
            WlanReadStage::Done { .. } => (state, self),
        }
    }

    /// What is reported at that reply.
    pub open spec fn notice(self, state: BusState) -> Option<Notice> {
        if self.stage == WlanReadStage::Settle {
            state.abort_notice()
        } else {
            None
        }
    }

    /// There is room to count what that reply makes count.
    pub open spec fn countable(self, state: BusState) -> bool {
        self.stage == WlanReadStage::Settle ==> state.f2_aborted.ready()
    }

    /// The state of the bus and the read after a number of replies.
    pub open spec fn run(self, state: BusState, replies: Seq<Reply>) -> (BusState, WlanRead)
        decreases replies.len(),
    {
        if replies.len() == 0 {
            (state, self)
        } else {
            let (next, op) = self.step(state, replies[0]);
            op.run(next, replies.drop_first())
        }
    }

    /// What the read waits for; nothing once it is done.
    pub fn action(&self) -> (r: Option<Action>)
        ensures
            r == self.pending(),
    {
        match self.stage {
            WlanReadStage::Data => Some(
                Action::ReadBuf {
                    cmd: cmd_word(READ, INC_ADDR, FUNC_WLAN, 0, self.len),
                    words: word_count(self.len as usize),
                },
            ),
            WlanReadStage::Status => Some(read_status()),
            WlanReadStage::Abort => Some(abort_f2_read()),
            WlanReadStage::Settle => Some(Action::Sleep { millis: ABORT_SETTLE_MILLIS }),
            WlanReadStage::Done { .. } => None,
        }
    }

    /// How the read ended, once it has.
    pub fn result(&self) -> (r: Option<Result<(), Error>>)
        ensures
            r == (match self.stage {
                WlanReadStage::Done { served } => Some(
                    if served {
                        Ok(())
                    } else {
                        Err(Error)
                    },
                ),
                _ => None,
            }),
    {
        match self.stage {
            WlanReadStage::Done { served } => if served {
                Some(Ok(()))
            } else {
                Some(Err(Error))
            },
            _ => None,
        }
    }

    /// Whether there is room to count what the next reply makes count.
    pub fn can_resume<PWR, SPI>(&self, bus: &SpiBus<PWR, SPI>) -> (r: bool)
        requires
            bus.wf(),
        ensures
            r == self.countable(bus@),
    {
        match self.stage {
            WlanReadStage::Settle => bus.can_count_abort(),
            _ => true,
        }
    }

    /// Takes the reply to what the read waits for.
    pub fn resume<PWR, SPI>(&mut self, bus: &mut SpiBus<PWR, SPI>, reply: Reply) -> (r: Option<
        Notice,
    >)
        requires
            old(bus).wf(),
            old(self).pending() is Some,
            old(self).countable(old(bus)@),
        ensures
            final(bus).wf(),
            final(bus).same_hardware(old(bus)),
            (final(bus)@, *final(self)) == old(self).step(old(bus)@, reply),
            r == old(self).notice(old(bus)@),
    {
        match self.stage {
            WlanReadStage::Data => {
                self.stage = WlanReadStage::Status;
                None
            },
            WlanReadStage::Status => {
                bus.set_status(reply.first);
                bus.record(cmd_word(READ, INC_ADDR, FUNC_WLAN, 0, self.len), reply.first);
                if reply.first & STATUS_DATA_NOT_AVAILABLE != 0 {
                    self.stage = WlanReadStage::Abort;
                } else {
                    self.stage = WlanReadStage::Done { served: true };
                }
                None
            },
            WlanReadStage::Abort => {
                bus.record(
                    cmd_word(WRITE, INC_ADDR, FUNC_BACKPLANE, REG_BACKPLANE_FRAME_CONTROL, 1),
                    UNINSTRUMENTED,
                );
                self.stage = WlanReadStage::Settle;
                None
            },
            WlanReadStage::Settle => {
                self.stage = WlanReadStage::Done { served: false };
                bus.count_abort()
            },
            WlanReadStage::Done { .. } => None,
        }
    }
}

/// A packet write under way.
#[derive(Clone, Copy, PartialEq, Eq, Structural, Debug)]
pub struct WlanWrite {
    /// The command word.
    pub cmd: u32,
    /// How many words are written, the command word included.
    pub words: usize,
    pub done: bool,
}

impl WlanWrite {
    /// What the write waits for.
    pub open spec fn pending(self) -> Option<Action> {
        if self.done {
            None
        } else {
            Some(Action::WriteBuf { words: self.words })
        }
    }

    /// What the write waits for; nothing once it is done.
    pub fn action(&self) -> (r: Option<Action>)
        ensures
            r == self.pending(),
    {
        if self.done {
            None
        } else {
            Some(Action::WriteBuf { words: self.words })
        }
    }

    /// How the write ended, once it has: it does not fail.
    pub fn result(&self) -> (r: Option<Result<(), Error>>)
        ensures
            r == (if self.done {
                Some(Ok::<(), Error>(()))
            } else {
                None
            }),
    {
        if self.done {
            Some(Ok(()))
        } else {
            None
        }
    }

    /// Takes the reply to what the write waits for.
    pub fn resume<PWR, SPI>(&mut self, bus: &mut SpiBus<PWR, SPI>)
        requires
            old(bus).wf(),
            old(self).pending() is Some,
        ensures
            final(bus).wf(),
            final(bus).same_hardware(old(bus)),
            final(bus)@ == old(bus)@.logged(old(self).cmd, UNINSTRUMENTED),
            *final(self) == (WlanWrite { done: true, ..*old(self) }),
    {
        bus.record(self.cmd, UNINSTRUMENTED);
        self.done = true;
    }
}

/// The read of a packet into a buffer of `size` bytes.
pub open spec fn packet_read(size: int) -> WlanRead {
    WlanRead { len: size as u32, stage: WlanReadStage::Data }
}

/// The write of a packet from a buffer of `size` bytes, of which the first four are for the command
/// word.
pub open spec fn packet_write(size: int) -> WlanWrite {
    WlanWrite {
        cmd: frame::command(WRITE, INC_ADDR, FUNC_WLAN, 0, (size - 4) as u32),
        words: buffer::words_for(size) as usize,
        done: false,
    }
}

impl<PWR, SPI> SpiBus<PWR, SPI> {
    /// Starts to read a packet into a buffer.
    pub fn wlan_read(&self, buf: &WordBuf) -> (r: WlanRead)
        ensures
            r == packet_read(buf.size()),
            r == (WlanRead { len: buf.size() as u32, stage: WlanReadStage::Data }),
    {
        WlanRead { len: #[verifier::truncate] (buf.len() as u32), stage: WlanReadStage::Data }
    }

    /// Starts to write a packet. The buffer holds the packet behind four bytes that the command
    /// word goes into.
    pub fn wlan_write(&self, buf: &mut WordBuf) -> (r: WlanWrite)
        requires
            old(buf).wf(),
            old(buf).size() >= 4,
        ensures
            r == packet_write(old(buf).size()),
            r == (WlanWrite {
                cmd: frame::command(
                    WRITE,
                    INC_ADDR,
                    FUNC_WLAN,
                    0,
                    (old(buf).size() - 4) as u32,
                ),
                words: buffer::words_for(old(buf).size()) as usize,
                done: false,
            }),
            final(buf).wf(),
            final(buf).size() == old(buf).size(),
            final(buf).words() == old(buf).words().update(0, r.cmd),
    {
        let len: usize = buf.len() - 4;
        buf.set_head(
            cmd_word(WRITE, INC_ADDR, FUNC_WLAN, 0, #[verifier::truncate] (len as u32)),
        );
        WlanWrite { cmd: buf.head(), words: word_count(buf.len()), done: false }
    }
}

/// A packet that the device has is delivered with two exchanges, and nothing else happens to the
/// bus than that its status is noted and the read recorded.
pub proof fn law_packet_served(state: BusState, len: u32, data: Reply, status: Reply)
    requires
        status.first & STATUS_DATA_NOT_AVAILABLE == 0,
    ensures
        ({
            let op = WlanRead { len, stage: WlanReadStage::Data };
            op.run(state, seq![data, status]) == (
                state.with_status(status.first).logged(op.command(), status.first),
                op.at(WlanReadStage::Done { served: true }),
            )
        }),
{
    let op = WlanRead { len, stage: WlanReadStage::Data };
    let replies = seq![data, status];
    assert(replies.drop_first() =~= seq![status]);
    assert(seq![status].drop_first() =~= Seq::<Reply>::empty());
    reveal_with_fuel(WlanRead::run, 3);
}

/// A packet that the device cannot serve is given up: the frame is terminated, the device gets
/// time to drop it, the drop is counted, and the read fails. It is not read again.
pub proof fn law_packet_dropped(
    state: BusState,
    len: u32,
    data: Reply,
    status: Reply,
    aborted: Reply,
    slept: Reply,
)
    requires
        status.first & STATUS_DATA_NOT_AVAILABLE != 0,
    ensures
        ({
            let op = WlanRead { len, stage: WlanReadStage::Data };
            &&& op.run(state, seq![data, status]).1.pending() == Some(abort_write())
            &&& op.run(state, seq![data, status, aborted]).1.pending() == Some(
                Action::Sleep { millis: ABORT_SETTLE_MILLIS },
            )
            &&& op.run(state, seq![data, status, aborted, slept]) == (
                state.with_status(status.first).logged(op.command(), status.first).logged(
                    abort_command(),
                    UNINSTRUMENTED,
                ).after_abort(),
                op.at(WlanReadStage::Done { served: false }),
            )
        }),
{
    let op = WlanRead { len, stage: WlanReadStage::Data };
    reveal_with_fuel(WlanRead::run, 5);
    assert(seq![data, status].drop_first() =~= seq![status]);
    assert(seq![status].drop_first() =~= Seq::<Reply>::empty());
    assert(seq![data, status, aborted].drop_first() =~= seq![status, aborted]);
    assert(seq![status, aborted].drop_first() =~= seq![aborted]);
    assert(seq![aborted].drop_first() =~= Seq::<Reply>::empty());
    assert(seq![data, status, aborted, slept].drop_first() =~= seq![status, aborted, slept]);
    assert(seq![status, aborted, slept].drop_first() =~= seq![aborted, slept]);
    assert(seq![aborted, slept].drop_first() =~= seq![slept]);
    assert(seq![slept].drop_first() =~= Seq::<Reply>::empty());
}

/// A packet read is for a buffer of its length; nothing has been read when it starts.
pub proof fn law_packet_read_starts(size: int)
    requires
        0 <= size <= u32::MAX,
    ensures
        packet_read(size).len == size,
        packet_read(size).stage == WlanReadStage::Data,
{
}

/// How a packet read goes on after each exchange. The status is read once the packet is in the
/// buffer; if bit 0 says that the device had no data the frame is terminated, the device gets its
/// time, the drop is counted and the read has failed, else it has succeeded. The packet is read
/// once. It is recorded with the status that was read for it, the termination without one.
pub proof fn law_packet_read_course(op: WlanRead, state: BusState, reply: Reply)
    requires
        op.pending() is Some,
    ensures
        ({
            let (s, n) = op.step(state, reply);
            let packet = op.at(WlanReadStage::Data).pending();
            &&& n.len == op.len
            &&& s.window == state.window
            &&& match op.stage {
                WlanReadStage::Data => s == state && n.stage == WlanReadStage::Status,
                WlanReadStage::Status => {
                    &&& s.status == reply.first
                    &&& s.log == state.log.record(wire::sent(packet), reply.first)
                    &&& n.stage == if reply.first % 2 == 1 {
                        WlanReadStage::Abort
                    } else {
                        WlanReadStage::Done { served: true }
                    }
                },
                WlanReadStage::Abort => {
                    &&& s.status == state.status
                    &&& s.log == state.log.record(wire::sent(op.pending()), 0)
                    &&& n.stage == WlanReadStage::Settle
                },
                _ => {
                    &&& s == state.after_abort()
                    &&& n.stage == (WlanReadStage::Done { served: false })
                },
            }
            &&& op.stage != WlanReadStage::Settle ==> bus::same_counts(s, state)
            &&& op.notice(state) == if op.stage == WlanReadStage::Settle {
                state.abort_notice()
            } else {
                None
            }
            &&& op.countable(state) == (op.stage == WlanReadStage::Settle
                ==> state.f2_aborted.ready())
        }),
{
    wire::law_packet_read_asks(op);
    frame::law_command_layout(true, true, FUNC_BACKPLANE, REG_BACKPLANE_FRAME_CONTROL, 1);
    bus::law_refused_reads(state.with_status(reply.first), 1, 0);
}

} // verus!
