//! A model of the device behind the bus, and what block transfers and register accesses achieve
//! when they are run against it.

use vstd::prelude::*;

use crate::buffer;
use crate::bulk;
use crate::bulk::{BpRead, BpReadStage, BpWrite, BpWriteStage};
use crate::bus;
use crate::bus::{BusState, WindowByte};
use crate::consts::{
    BACKPLANE_ADDRESS_MASK, FUNC_BACKPLANE, FUNC_BUS, REG_BACKPLANE_BACKPLANE_ADDRESS_HIGH,
    REG_BACKPLANE_BACKPLANE_ADDRESS_LOW, REG_BACKPLANE_BACKPLANE_ADDRESS_MID, REG_BUS_INTERRUPT,
    SPI_STATUS_REGISTER,
};
use crate::frame;
use crate::frame::Command;
use crate::io::{Action, Reply};
use crate::register;
use crate::register::{ReadStage, RegRead, RegWrite, WriteStage};

verus! {

/// The part of the device that the backplane accesses see: the window registers, the memory behind
/// the backplane, and whether a read that could not be served is still latched.
#[verifier::ext_equal]
pub struct Device {
    pub high: u8,
    pub mid: u8,
    pub low: u8,
    pub mem: spec_fn(int) -> u8,
    pub latched: bool,
}

/// Memory with `d` written over it from address `at` on.
pub open spec fn stored(mem: spec_fn(int) -> u8, at: int, d: Seq<u8>) -> spec_fn(int) -> u8 {
    |a: int|
        if at <= a < at + d.len() {
            d[a - at]
        } else {
            mem(a)
        }
}

/// Whether a command is about memory seen through the window.
pub open spec fn in_window(c: Command) -> bool {
    c.func == FUNC_BACKPLANE && c.addr < 0x10000
}

/// Whether a command word opens a transfer in that direction with an address that advances.
pub open spec fn opens(cmd: u32, write: bool) -> bool {
    frame::fields(cmd).write == write && (cmd >> 30) & 1 == 1
}

impl Device {
    /// What one of the window registers holds.
    pub open spec fn part(self, b: WindowByte) -> u8 {
        match b {
            WindowByte::High => self.high,
            WindowByte::Mid => self.mid,
            WindowByte::Low => self.low,
        }
    }

    /// The device with a window register written.
    pub open spec fn with_part(self, b: WindowByte, v: u8) -> Device {
        match b {
            WindowByte::High => Device { high: v, ..self },
            WindowByte::Mid => Device { mid: v, ..self },
            WindowByte::Low => Device { low: v, ..self },
        }
    }

    /// Where the window starts.
    pub open spec fn base(self) -> int {
        self.high * 0x1000000 + self.mid * 0x10000 + self.low * 0x100
    }

    /// The memory address that a command is about.
    pub open spec fn cell(self, c: Command) -> int {
        self.base() + c.addr % 0x8000
    }

    /// The device after a write command with the given bytes behind it, as many as it asks for or
    /// more.
    pub open spec fn written(self, c: Command, bytes: Seq<u8>) -> Device {
        if c.func == FUNC_BACKPLANE && c.addr == REG_BACKPLANE_BACKPLANE_ADDRESS_HIGH
            && c.len == 1 {
            self.with_part(WindowByte::High, bytes[0])
        } else if c.func == FUNC_BACKPLANE && c.addr == REG_BACKPLANE_BACKPLANE_ADDRESS_MID
            && c.len == 1 {
            self.with_part(WindowByte::Mid, bytes[0])
        } else if c.func == FUNC_BACKPLANE && c.addr == REG_BACKPLANE_BACKPLANE_ADDRESS_LOW
            && c.len == 1 {
            self.with_part(WindowByte::Low, bytes[0])
        } else if in_window(c) {
            Device { mem: stored(self.mem, self.cell(c), bytes.take(c.len as int)), ..self }
        } else if c.func == FUNC_BUS && c.addr == REG_BUS_INTERRUPT && c.len >= 1 && bytes[0]
            % 2 == 1 {
            Device { latched: false, ..self }
        } else {
            self
        }
    }

    /// Whether the device can become `next` on a read command with `bytes` in the response: a read
    /// of memory is served, or it is refused, which is latched, and brings anything. The data comes
    /// after one word of response delay, and only as much of it as the response has room for.
    pub open spec fn reads(self, c: Command, bytes: Seq<u8>, next: Device) -> bool {
        if in_window(c) {
            ||| next == Device { latched: true, ..self }
            ||| next == self && forall|j: int|
                4 <= j < 4 + c.len && j < bytes.len() ==> #[trigger] bytes[j] == (self.mem)(
                    self.cell(c) + j - 4,
                )
        } else {
            next == self
        }
    }

    /// Whether the device can become `next`, with the given reply, on an action that leaves the
    /// words of the caller's buffer as `after`.
    ///
    /// Only the words that the action asks for are moved: a write whose command asks for more
    /// bytes than it sends does anything, a read leaves the rest of the buffer as it was, and a
    /// word of the reply that was not asked for may be anything. A command word that does not open
    /// the transfer it is used for does anything, too. The status word tells whether a refusal is
    /// latched.
    pub open spec fn serves(
        self,
        action: Action,
        before: Seq<u32>,
        reply: Reply,
        after: Seq<u32>,
        next: Device,
    ) -> bool {
        match action {
            Action::Write { cmd, val } => {
                let c = frame::fields(cmd);
                &&& after == before
                &&& opens(cmd, true) && c.len <= 4 ==> next == self.written(
                    c,
                    buffer::bytes_of(seq![val]),
                )
            },
            Action::Read { cmd, words } => {
                let c = frame::fields(cmd);
                let response = seq![reply.first, reply.second].take(
                    if words < 2 {
                        words as int
                    } else {
                        2
                    },
                );
                &&& after == before
                &&& opens(cmd, false) ==> self.reads(c, buffer::bytes_of(response), next)
                &&& opens(cmd, false) && c.func == FUNC_BUS && c.addr == SPI_STATUS_REGISTER && c.len
                    == 4 && words >= 1 ==> register::unavailable(reply.first) == self.latched
            },
            Action::WriteBuf { words } => {
                let c = frame::fields(before[0]);
                let bytes = buffer::bytes_of(before.take(words as int));
                &&& after == before
                &&& 1 <= words <= before.len() && opens(before[0], true) && 4 + c.len <= 4 * words
                    ==> next == self.written(c, bytes.skip(4))
            },
            Action::ReadBuf { cmd, words } => {
                &&& after.len() == before.len()
                &&& forall|k: int| words <= k < after.len() ==> #[trigger] after[k] == before[k]
                &&& words <= after.len() && opens(cmd, false) ==> self.reads(
                    frame::fields(cmd),
                    buffer::bytes_of(after.take(words as int)),
                    next,
                )
            },
            Action::Sleep { .. } | Action::Power { .. } => after == before && next == self,
        }
    }
}

/// The place of a window register in the order in which they are written.
pub open spec fn rank(b: Option<WindowByte>) -> int {
    match b {
        Some(WindowByte::High) => 0,
        Some(WindowByte::Mid) => 1,
        Some(WindowByte::Low) => 2,
        None => 3,
    }
}

/// What a window register holds when the device is at the window of `addr`.
pub open spec fn wanted(addr: u32, b: WindowByte) -> u8 {
    bus::window_part(bus::window_of(addr), b)
}

/// The device is at the window of `addr`.
pub open spec fn synced(d: Device, addr: u32) -> bool {
    forall|b: WindowByte| #[trigger] d.part(b) == wanted(addr, b)
}

/// The writes of the stale window registers from `from` on will bring the device to the window of
/// `addr`: those that will not be written are right already.
pub open spec fn reaches(window: u32, d: Device, addr: u32, from: Option<WindowByte>) -> bool {
    forall|b: WindowByte|
        rank(Some(b)) < rank(from) || !bus::stale(window, addr, b) ==> #[trigger] d.part(b)
            == wanted(addr, b)
}

/// The host knows which window the device is at.
pub open spec fn agrees(window: u32, d: Device) -> bool {
    forall|b: WindowByte| #[trigger] d.part(b) == bus::window_part(window, b)
}

/// A host that knows the window of the device reaches every address.
pub proof fn law_agreement_reaches(window: u32, d: Device, addr: u32)
    requires
        agrees(window, d),
    ensures
        reaches(window, d, addr, Some(WindowByte::High)),
{
}

/// A host that does not know the window of the device writes all three window registers, from the
/// highest to the lowest, so it reaches every address.
pub proof fn law_unknown_window_reaches(d: Device, addr: u32)
    ensures
        bus::first_stale(bus::WINDOW_UNKNOWN, addr, Some(WindowByte::High)) == Some(
            WindowByte::High,
        ),
        bus::first_stale(bus::WINDOW_UNKNOWN, addr, WindowByte::High.after()) == Some(
            WindowByte::Mid,
        ),
        bus::first_stale(bus::WINDOW_UNKNOWN, addr, WindowByte::Mid.after()) == Some(
            WindowByte::Low,
        ),
        bus::first_stale(bus::WINDOW_UNKNOWN, addr, WindowByte::Low.after()) is None,
        reaches(bus::WINDOW_UNKNOWN, d, addr, Some(WindowByte::High)),
{
}

/// Going on with the window registers from `from` on.
proof fn lemma_enter(window: u32, d: Device, addr: u32, from: Option<WindowByte>)
    requires
        reaches(window, d, addr, from),
    ensures
        match bus::first_stale(window, addr, from) {
            Some(b) => reaches(window, d, addr, Some(b)),
            None => synced(d, addr),
        },
{
    match bus::first_stale(window, addr, from) {
        Some(b) => {
            assert forall|c: WindowByte| rank(Some(c)) < rank(Some(b)) || !bus::stale(window, addr, c)
                implies #[trigger] d.part(c) == wanted(addr, c) by {}
        },
        None => {
            assert forall|c: WindowByte| #[trigger] d.part(c) == wanted(addr, c) by {}
        },
    }
}

/// Writing a window register.
proof fn lemma_window_write(
    window: u32,
    d: Device,
    addr: u32,
    b: WindowByte,
    before: Seq<u32>,
    reply: Reply,
    after: Seq<u32>,
    e: Device,
)
    requires
        reaches(window, d, addr, Some(b)),
        d.serves(b.write_for(addr), before, reply, after, e),
    ensures
        after == before,
        e == d.with_part(b, wanted(addr, b)),
        reaches(window, e, addr, b.after()),
{
    let v: u8 = wanted(addr, b);
    frame::law_command_fields(true, true, FUNC_BACKPLANE, b.register(), 1);
    let word: u32 = v as u32;
    assert((((word >> 0u32) & 0xFF) as u8) == v) by (bit_vector)
        requires
            word == v as u32,
    ;
    assert(buffer::bytes_of(seq![word])[0] == v);
    assert(e == d.with_part(b, v)) by {
        match b {
            WindowByte::High => {},
            WindowByte::Mid => {},
            WindowByte::Low => {},
        }
    }
    assert forall|c: WindowByte|
        rank(Some(c)) < rank(b.after()) || !bus::stale(window, addr, c) implies #[trigger] e.part(c)
        == wanted(addr, c) by {
        if c == b {
            assert(e.part(c) == v);
        } else {
            assert(e.part(c) == d.part(c));
        }
    }
}

/// Where a device that is at the window of `addr` finds `addr`.
proof fn lemma_synced_base(d: Device, addr: u32)
    requires
        synced(d, addr),
    ensures
        d.base() + (addr & BACKPLANE_ADDRESS_MASK) == addr,
        agrees(bus::window_of(addr), d),
{
    let w: u32 = addr & !BACKPLANE_ADDRESS_MASK;
    assert(((w >> 24) as u8) * 0x1000000 + ((w >> 16) as u8) * 0x10000 + ((w >> 8) as u8) * 0x100
        == w && w + (addr & 0x7FFF) == addr) by (bit_vector)
        requires
            w == addr & !0x7FFFu32,
    ;
    assert(d.part(WindowByte::High) == wanted(addr, WindowByte::High));
    assert(d.part(WindowByte::Mid) == wanted(addr, WindowByte::Mid));
    assert(d.part(WindowByte::Low) == wanted(addr, WindowByte::Low));
}

/// The command of a transfer, as the device at its window understands it.
proof fn lemma_transfer(d: Device, write: bool, addr: u32, len: int)
    requires
        synced(d, addr),
        0 <= len <= 64,
    ensures
        ({
            let c = frame::fields(bulk::transfer_command(write, addr, len));
            &&& in_window(c)
            &&& c.len == len
            &&& d.cell(c) == addr
            &&& opens(bulk::transfer_command(write, addr, len), write)
        }),
{
    let f: u32 = (addr & 0x7FFF) | 0x8000;
    assert(f < 0x10000 && f % 0x20000 == f && f % 0x8000 == addr & 0x7FFF) by (bit_vector)
        requires
            f == (addr & 0x7FFF) | 0x8000,
    ;
    frame::law_command_fields(write, true, FUNC_BACKPLANE, f, len as u32);
    lemma_synced_base(d, addr);
}

/// A moment of a block read: the host, the operation, the device, the words of the buffer and the
/// data delivered so far.
#[verifier::ext_equal]
pub struct ReadMoment {
    pub state: BusState,
    pub op: BpRead,
    pub device: Device,
    pub words: Seq<u32>,
    pub data: Seq<u8>,
}

impl ReadMoment {
    /// Whether `next` can come after this moment: the device does what the operation waits for, and
    /// the operation takes the reply. The buffer has `size` bytes.
    pub open spec fn leads_to(self, reply: Reply, next: ReadMoment, size: int) -> bool {
        &&& self.op.pending() is Some
        &&& self.op.fits(size)
        &&& self.op.countable(self.state, reply)
        &&& self.device.serves(
            self.op.pending().unwrap(),
            self.words,
            reply,
            next.words,
            next.device,
        )
        &&& (next.state, next.op, next.data) == self.op.step(
            self.state,
            reply,
            buffer::bytes_of(next.words).take(size),
            self.data,
        )
    }

    /// What holds all along of a read of `len` bytes at `addr`: what has been delivered is what the
    /// memory holds, unless a read was starved, and the device is where the host believes it to be.
    spec fn on_track(
        self,
        addr: u32,
        len: usize,
        mem: spec_fn(int) -> u8,
        starved: u32,
        size: int,
    ) -> bool {
        let op = self.op;
        &&& op.wf()
        &&& op.total == len
        &&& op.addr == addr + op.done
        &&& self.device.mem == mem
        &&& self.data.len() == len
        &&& self.words.len() == buffer::words_for(size)
        &&& self.state.starved.seen >= starved
        &&& self.state.starved.seen == starved ==> forall|i: int|
            0 <= i < op.done ==> #[trigger] self.data[i] == mem(addr + i)
        &&& match op.stage {
            BpReadStage::Window(b) => reaches(self.state.window, self.device, op.addr, Some(b)),
            BpReadStage::Done => len > 0 ==> agrees(self.state.window, self.device),
            _ => self.state.window == bus::window_of(op.addr) && synced(self.device, op.addr),
        }
        &&& op.stage is Status && !self.device.latched ==> forall|i: int|
            0 <= i < op.chunk() ==> #[trigger] buffer::bytes_of(self.words)[4 + i] == mem(
                op.addr + i,
            )
    }
}

/// The start of a transfer of a block read.
proof fn lemma_read_begins(m: ReadMoment, op: BpRead, state: BusState)
    requires
        op.done < op.total,
        (m.state, m.op) == op.enter(state, Some(WindowByte::High)),
        reaches(state.window, m.device, op.addr, Some(WindowByte::High)),
    ensures
        m.op.addr == op.addr,
        m.op.done == op.done,
        m.op.total == op.total,
        m.state.starved == state.starved,
        match m.op.stage {
            BpReadStage::Window(b) => reaches(m.state.window, m.device, op.addr, Some(b)),
            BpReadStage::Data { attempt } => {
                &&& attempt == 0
                &&& m.state.window == bus::window_of(op.addr)
                &&& synced(m.device, op.addr)
            },
            _ => false,
        },
{
    lemma_enter(state.window, m.device, op.addr, Some(WindowByte::High));
}

/// One step of a block read keeps it on track.
proof fn lemma_read_step(
    m: ReadMoment,
    reply: Reply,
    n: ReadMoment,
    addr: u32,
    len: usize,
    mem: spec_fn(int) -> u8,
    starved: u32,
    size: int,
)
    requires
        m.on_track(addr, len, mem, starved, size),
        m.leads_to(reply, n, size),
        addr + len <= u32::MAX,
    ensures
        n.on_track(addr, len, mem, starved, size),
{
    let op = m.op;
    let chunk = op.chunk();
    bulk::law_transfer_in_window(op.addr, op.total - op.done);
    match op.stage {
        BpReadStage::Window(b) => {
            lemma_window_write(
                m.state.window,
                m.device,
                op.addr,
                b,
                m.words,
                reply,
                n.words,
                n.device,
            );
            lemma_enter(m.state.window, n.device, op.addr, b.after());
        },
        BpReadStage::Data { attempt } => {
            lemma_transfer(m.device, false, op.addr, chunk);
            let c = frame::fields(op.command());
            let w = buffer::words_for(chunk) + 1;
            let got = buffer::bytes_of(n.words.take(w));
            buffer::law_words_hold_bytes(chunk);
            assert(w <= n.words.len());
            assert(m.device.reads(c, got, n.device));
            assert(synced(n.device, op.addr)) by {
                assert forall|b: WindowByte| #[trigger]
                    n.device.part(b) == wanted(op.addr, b) by {
                    assert(m.device.part(b) == wanted(op.addr, b));
                }
            }
            if !n.device.latched {
                assert forall|i: int| 0 <= i < chunk implies #[trigger] buffer::bytes_of(
                    n.words,
                )[4 + i] == mem(op.addr + i) by {
                    assert(got[4 + i] == buffer::bytes_of(n.words)[4 + i]);
                }
            }
        },
        BpReadStage::Status { attempt } => {
            frame::law_command_fields(false, true, FUNC_BUS, SPI_STATUS_REGISTER, 4);
            assert(n.device == m.device && n.words == m.words);
            let noted = op.noted(m.state, reply.first);
            let judged = noted.after_reissue(FUNC_BACKPLANE, attempt);
            if noted.decision(FUNC_BACKPLANE, attempt) == bus::Decision::Retry {
            } else {
                let got = buffer::bytes_of(n.words).take(size).subrange(4, 4 + chunk);
                let next = op.advanced();
                lemma_synced_base(m.device, op.addr);
                if noted.decision(FUNC_BACKPLANE, attempt) == bus::Decision::Trust {
                    assert forall|i: int| 0 <= i < next.done implies #[trigger] n.data[i] == mem(
                        addr + i,
                    ) || n.state.starved.seen != starved by {
                        if i < op.done {
                            assert(n.data[i] == m.data[i]);
                        } else {
                            let j = i - op.done;
                            assert(n.data[i] == got[j]);
                            assert(got[j] == buffer::bytes_of(m.words)[4 + j]);
                        }
                    }
                }
                if next.done < next.total {
                    law_agreement_reaches(m.state.window, m.device, next.addr);
                    lemma_read_begins(n, next, judged);
                }
            }
        },
        BpReadStage::Clear { attempt } => {
            frame::law_command_fields(true, true, FUNC_BUS, REG_BUS_INTERRUPT, 2);
            assert forall|b: WindowByte| #[trigger] n.device.part(b) == wanted(op.addr, b) by {
                assert(m.device.part(b) == wanted(op.addr, b));
            }
        },
        BpReadStage::Done => {},
    }
}

/// The moments of a run of a block read, with the replies between them.
pub open spec fn is_read_run(moments: Seq<ReadMoment>, replies: Seq<Reply>, size: int) -> bool {
    &&& moments.len() == replies.len() + 1
    &&& moments[0].words.len() == buffer::words_for(size)
    &&& forall|i: int|
        0 <= i < replies.len() ==> (#[trigger] moments[i]).leads_to(
            replies[i],
            moments[i + 1],
            size,
        )
}

/// A block read stays on track.
proof fn lemma_read_run(
    moments: Seq<ReadMoment>,
    replies: Seq<Reply>,
    k: int,
    addr: u32,
    len: usize,
    mem: spec_fn(int) -> u8,
    starved: u32,
    size: int,
)
    requires
        is_read_run(moments, replies, size),
        moments[0].on_track(addr, len, mem, starved, size),
        addr + len <= u32::MAX,
        0 <= k < moments.len(),
    ensures
        moments[k].on_track(addr, len, mem, starved, size),
    decreases k,
{
    if k > 0 {
        lemma_read_run(moments, replies, k - 1, addr, len, mem, starved, size);
        lemma_read_step(
            moments[k - 1],
            replies[k - 1],
            moments[k],
            addr,
            len,
            mem,
            starved,
            size,
        );
    }
}

/// A block read delivers what the memory of the device holds, however often the device refused a
/// transfer, as long as no transfer was refused until the host gave up. It changes no memory, and
/// the host knows the window of the device afterwards.
pub proof fn law_block_read(
    state: BusState,
    addr: u32,
    len: usize,
    moments: Seq<ReadMoment>,
    replies: Seq<Reply>,
    size: int,
)
    requires
        addr + len <= u32::MAX,
        size >= 0,
        is_read_run(moments, replies, size),
        (moments[0].state, moments[0].op) == bulk::block_read(addr, len).begin(state),
        moments[0].data.len() == len,
        reaches(state.window, moments[0].device, addr, Some(WindowByte::High)),
        moments.last().op.stage == BpReadStage::Done,
        moments.last().state.starved == state.starved,
    ensures
        moments.last().data == Seq::new(len as nat, |i: int| (moments[0].device.mem)(addr + i)),
        moments.last().device.mem == moments[0].device.mem,
        len > 0 ==> agrees(moments.last().state.window, moments.last().device),
{
    let first = moments[0];
    if len > 0 {
        lemma_read_begins(first, bulk::block_read(addr, len), state);
    }
    let mem = first.device.mem;
    let starved = state.starved.seen;
    lemma_read_run(moments, replies, moments.len() - 1, addr, len, mem, starved, size);
    assert(moments.last().data =~= Seq::new(len as nat, |i: int| mem(addr + i)));
}

/// A moment of a block write: the host, the operation, the device and the words of the buffer.
#[verifier::ext_equal]
pub struct WriteMoment {
    pub state: BusState,
    pub op: BpWrite,
    pub device: Device,
    pub words: Seq<u32>,
}

impl WriteMoment {
    /// Whether `next` can come after this moment.
    pub open spec fn leads_to(
        self,
        data: Seq<u8>,
        reply: Reply,
        next: WriteMoment,
        size: int,
    ) -> bool {
        &&& self.op.pending() is Some
        &&& self.op.fits(size)
        &&& self.op.stage == BpWriteStage::Data ==> self.op.advanced().fits(size)
        &&& exists|sent: Seq<u32>|
            {
                &&& #[trigger] self.device.serves(
                    self.op.pending().unwrap(),
                    self.words,
                    reply,
                    sent,
                    next.device,
                )
                &&& (next.state, next.op, next.words) == self.op.step(self.state, data, sent)
            }
    }

    /// What holds all along of a write of `data` at `addr`: the memory is as it was, but for what
    /// has been written, the buffer holds what comes next, and the device is where the host
    /// believes it to be.
    spec fn on_track(self, addr: u32, data: Seq<u8>, mem: spec_fn(int) -> u8, size: int) -> bool {
        let op = self.op;
        &&& op.wf()
        &&& op.total == data.len()
        &&& op.addr == addr + op.done
        &&& self.device.mem == stored(mem, addr as int, data.take(op.done as int))
        &&& self.words.len() == buffer::words_for(size)
        &&& op.fits(size)
        &&& op.done < op.total ==> forall|i: int|
            0 <= i < op.chunk() ==> #[trigger] buffer::bytes_of(self.words)[4 + i] == data[op.done
                + i]
        &&& match op.stage {
            BpWriteStage::Window(b) => reaches(self.state.window, self.device, op.addr, Some(b)),
            BpWriteStage::Data => {
                &&& self.state.window == bus::window_of(op.addr)
                &&& synced(self.device, op.addr)
                &&& self.words[0] == op.command()
            },
            BpWriteStage::Done => data.len() > 0 ==> agrees(self.state.window, self.device),
        }
    }
}

/// Replacing the command word leaves the bytes behind it alone.
proof fn lemma_head_replaced(words: Seq<u32>, word: u32)
    requires
        words.len() >= 1,
    ensures
        forall|i: int|
            4 <= i < 4 * words.len() ==> #[trigger] buffer::bytes_of(words.update(0, word))[i]
                == buffer::bytes_of(words)[i],
{
}

/// What the buffer holds once a transfer was put in it.
proof fn lemma_loaded(op: BpWrite, data: Seq<u8>, words: Seq<u32>, size: int)
    requires
        op.done < op.total,
        op.total == data.len(),
        op.fits(size),
        words.len() == buffer::words_for(size),
    ensures
        op.loaded(data, words).len() == words.len(),
        words.len() >= 2,
        forall|i: int|
            0 <= i < op.chunk() ==> #[trigger] buffer::bytes_of(op.loaded(data, words))[4 + i]
                == data[op.done + i],
{
    bulk::law_transfer_in_window(op.addr, op.total - op.done);
    let d = data.subrange(op.done as int, op.done + op.chunk());
    buffer::lemma_overwritten_words(words, 4, d);
    let after = buffer::bytes_of(op.loaded(data, words));
    assert(after == buffer::overwritten(buffer::bytes_of(words), 4, d));
    assert forall|i: int| 0 <= i < op.chunk() implies #[trigger] after[4 + i] == data[op.done
        + i] by {
        assert(d[i] == data[op.done + i]);
    }
}

/// The start of a transfer of a block write.
proof fn lemma_write_begins(
    m: WriteMoment,
    op: BpWrite,
    state: BusState,
    data: Seq<u8>,
    before: Seq<u32>,
    size: int,
)
    requires
        op.done < op.total,
        op.total == data.len(),
        op.fits(size),
        before.len() == buffer::words_for(size),
        (m.state, m.op, m.words) == op.begin(state, data, before),
        reaches(state.window, m.device, op.addr, Some(WindowByte::High)),
    ensures
        m.op.addr == op.addr,
        m.op.done == op.done,
        m.op.total == op.total,
        m.op.chunk() == op.chunk(),
        m.words.len() == buffer::words_for(size),
        forall|i: int|
            0 <= i < op.chunk() ==> #[trigger] buffer::bytes_of(m.words)[4 + i] == data[op.done
                + i],
        match m.op.stage {
            BpWriteStage::Window(b) => reaches(m.state.window, m.device, op.addr, Some(b)),
            BpWriteStage::Data => {
                &&& m.state.window == bus::window_of(op.addr)
                &&& synced(m.device, op.addr)
                &&& m.words[0] == op.command()
            },
            BpWriteStage::Done => false,
        },
{
    lemma_loaded(op, data, before, size);
    lemma_enter(state.window, m.device, op.addr, Some(WindowByte::High));
    let loaded = op.loaded(data, before);
    lemma_head_replaced(loaded, op.command());
    assert(m.words == loaded || m.words == loaded.update(0, op.command()));
    assert forall|i: int| 0 <= i < op.chunk() implies #[trigger] buffer::bytes_of(m.words)[4 + i]
        == data[op.done + i] by {
        assert(buffer::bytes_of(loaded)[4 + i] == data[op.done + i]);
    }
}

/// One step of a block write keeps it on track.
proof fn lemma_write_step(
    m: WriteMoment,
    reply: Reply,
    n: WriteMoment,
    addr: u32,
    data: Seq<u8>,
    mem: spec_fn(int) -> u8,
    size: int,
)
    requires
        m.on_track(addr, data, mem, size),
        m.leads_to(data, reply, n, size),
        addr + data.len() <= u32::MAX,
    ensures
        n.on_track(addr, data, mem, size),
{
    let op = m.op;
    let chunk = op.chunk();
    bulk::law_transfer_in_window(op.addr, op.total - op.done);
    let sent = choose|sent: Seq<u32>|
        {
            &&& #[trigger] m.device.serves(
                op.pending().unwrap(),
                m.words,
                reply,
                sent,
                n.device,
            )
            &&& (n.state, n.op, n.words) == op.step(m.state, data, sent)
        };
    match op.stage {
        BpWriteStage::Window(b) => {
            lemma_window_write(
                m.state.window,
                m.device,
                op.addr,
                b,
                m.words,
                reply,
                sent,
                n.device,
            );
            lemma_enter(m.state.window, n.device, op.addr, b.after());
            lemma_head_replaced(m.words, op.command());
        },
        BpWriteStage::Data => {
            lemma_transfer(m.device, true, op.addr, chunk);
            let next = op.advanced();
            let w = buffer::words_for(chunk) + 1;
            buffer::law_words_hold_bytes(chunk);
            assert(w <= m.words.len());
            assert(m.words.take(w)[0] == m.words[0]);
            let payload = buffer::bytes_of(m.words.take(w)).skip(4).take(chunk);
            assert forall|i: int| 0 <= i < chunk implies #[trigger] payload[i] == data[op.done
                + i] by {
                assert(buffer::bytes_of(m.words)[4 + i] == data[op.done + i]);
                assert(payload[i] == buffer::bytes_of(m.words)[4 + i]);
            }
            assert(payload =~= data.subrange(op.done as int, next.done as int));
            assert(n.device.mem == stored(m.device.mem, op.addr as int, payload));
            assert(n.device.mem =~= stored(mem, addr as int, data.take(next.done as int))) by {
                assert forall|a: int| #[trigger]
                    (n.device.mem)(a) == stored(mem, addr as int, data.take(next.done as int))(
                        a,
                    ) by {
                    assert((m.device.mem)(a) == stored(mem, addr as int, data.take(op.done as int))(a));
                }
            }
            assert forall|b: WindowByte| #[trigger] n.device.part(b) == wanted(op.addr, b) by {
                assert(m.device.part(b) == wanted(op.addr, b));
            }
            lemma_synced_base(n.device, op.addr);
            if next.done < next.total {
                law_agreement_reaches(m.state.window, n.device, next.addr);
                let state = m.state.logged(op.command(), crate::oplog::UNINSTRUMENTED);
                lemma_write_begins(n, next, state, data, sent, size);
            }
        },
        BpWriteStage::Done => {},
    }
}

/// The moments of a run of a block write, with the replies between them.
pub open spec fn is_write_run(
    moments: Seq<WriteMoment>,
    replies: Seq<Reply>,
    data: Seq<u8>,
    size: int,
) -> bool {
    &&& moments.len() == replies.len() + 1
    &&& forall|i: int|
        0 <= i < replies.len() ==> (#[trigger] moments[i]).leads_to(
            data,
            replies[i],
            moments[i + 1],
            size,
        )
}

/// A block write stays on track.
proof fn lemma_write_run(
    moments: Seq<WriteMoment>,
    replies: Seq<Reply>,
    k: int,
    addr: u32,
    data: Seq<u8>,
    mem: spec_fn(int) -> u8,
    size: int,
)
    requires
        is_write_run(moments, replies, data, size),
        moments[0].on_track(addr, data, mem, size),
        addr + data.len() <= u32::MAX,
        0 <= k < moments.len(),
    ensures
        moments[k].on_track(addr, data, mem, size),
    decreases k,
{
    if k > 0 {
        lemma_write_run(moments, replies, k - 1, addr, data, mem, size);
        lemma_write_step(moments[k - 1], replies[k - 1], moments[k], addr, data, mem, size);
    }
}

/// A block write puts the data into the memory of the device, changes no other memory, and the
/// host knows the window of the device afterwards.
pub proof fn law_block_write(
    state: BusState,
    addr: u32,
    data: Seq<u8>,
    words: Seq<u32>,
    moments: Seq<WriteMoment>,
    replies: Seq<Reply>,
    size: int,
)
    requires
        addr + data.len() <= u32::MAX,
        data.len() <= usize::MAX,
        size >= 0,
        words.len() == buffer::words_for(size),
        is_write_run(moments, replies, data, size),
        bulk::block_write(addr, data.len() as usize).fits(size),
        (moments[0].state, moments[0].op, moments[0].words) == bulk::block_write(
            addr,
            data.len() as usize,
        ).begin(state, data, words),
        reaches(state.window, moments[0].device, addr, Some(WindowByte::High)),
        moments.last().op.stage == BpWriteStage::Done,
    ensures
        moments.last().device.mem == stored(moments[0].device.mem, addr as int, data),
        data.len() > 0 ==> agrees(moments.last().state.window, moments.last().device),
{
    let first = moments[0];
    let mem = first.device.mem;
    let op = bulk::block_write(addr, data.len() as usize);
    if data.len() > 0 {
        lemma_write_begins(first, op, state, data, words, size);
    }
    assert(mem =~= stored(mem, addr as int, data.take(0)));
    lemma_write_run(moments, replies, moments.len() - 1, addr, data, mem, size);
    assert(data.take(data.len() as int) =~= data);
}

/// A block read gives back what a block write wrote to the same addresses, as long as no transfer
/// was refused until the host gave up.
pub proof fn law_read_gives_back_write(
    state: BusState,
    addr: u32,
    data: Seq<u8>,
    words: Seq<u32>,
    writes: Seq<WriteMoment>,
    write_replies: Seq<Reply>,
    reads: Seq<ReadMoment>,
    read_replies: Seq<Reply>,
    size: int,
)
    requires
        addr + data.len() <= u32::MAX,
        data.len() <= usize::MAX,
        size >= 0,
        words.len() == buffer::words_for(size),
        is_write_run(writes, write_replies, data, size),
        bulk::block_write(addr, data.len() as usize).fits(size),
        (writes[0].state, writes[0].op, writes[0].words) == bulk::block_write(
            addr,
            data.len() as usize,
        ).begin(state, data, words),
        reaches(state.window, writes[0].device, addr, Some(WindowByte::High)),
        writes.last().op.stage == BpWriteStage::Done,
        is_read_run(reads, read_replies, size),
        (reads[0].state, reads[0].op) == bulk::block_read(addr, data.len() as usize).begin(
            writes.last().state,
        ),
        reads[0].device == writes.last().device,
        reads[0].data.len() == data.len(),
        reads.last().op.stage == BpReadStage::Done,
        reads.last().state.starved == writes.last().state.starved,
    ensures
        reads.last().data == data,
{
    law_block_write(state, addr, data, words, writes, write_replies, size);
    if data.len() > 0 {
        law_agreement_reaches(writes.last().state.window, writes.last().device, addr);
        law_block_read(
            writes.last().state,
            addr,
            data.len() as usize,
            reads,
            read_replies,
            size,
        );
    } else {
        assert(reads.last().data.len() == 0) by {
            lemma_read_run(
                reads,
                read_replies,
                reads.len() - 1,
                addr,
                0,
                reads[0].device.mem,
                reads[0].state.starved.seen,
                size,
            );
        }
    }
    assert(reads.last().data =~= data);
}

/// A moment of the write of a backplane register.
#[verifier::ext_equal]
pub struct RegWriteMoment {
    pub state: BusState,
    pub op: RegWrite,
    pub device: Device,
}

impl RegWriteMoment {
    /// Whether `next` can come after this moment.
    pub open spec fn leads_to(self, reply: Reply, next: RegWriteMoment) -> bool {
        &&& self.op.pending() is Some
        &&& self.device.serves(
            self.op.pending().unwrap(),
            Seq::empty(),
            reply,
            Seq::empty(),
            next.device,
        )
        &&& (next.state, next.op) == self.op.step(self.state)
    }

    /// What holds all along of a write of `len` bytes of `val` at `addr`.
    spec fn on_track(self, addr: u32, val: u32, len: u32, mem: spec_fn(int) -> u8) -> bool {
        let op = self.op;
        &&& op == register::backplane_write(addr, val, len).at(op.stage)
        &&& match op.stage {
            WriteStage::Window(b) => self.device.mem == mem && reaches(
                self.state.window,
                self.device,
                addr,
                Some(b),
            ),
            WriteStage::Data => self.device.mem == mem && self.state.window == bus::window_of(addr)
                && synced(self.device, addr),
            WriteStage::Done => self.device.mem == stored(
                mem,
                addr as int,
                buffer::bytes_of(seq![val]).take(len as int),
            ) && agrees(self.state.window, self.device),
        }
    }
}

/// The command of a register access, as the device at its window understands it.
proof fn lemma_register(d: Device, write: bool, addr: u32, len: u32)
    requires
        synced(d, addr),
        len <= 4,
    ensures
        ({
            let c = frame::fields(
                frame::command(
                    write,
                    true,
                    FUNC_BACKPLANE,
                    register::window_address(addr, len),
                    len,
                ),
            );
            &&& in_window(c)
            &&& c.len == len
            &&& d.cell(c) == addr
            &&& opens(
                frame::command(
                    write,
                    true,
                    FUNC_BACKPLANE,
                    register::window_address(addr, len),
                    len,
                ),
                write,
            )
        }),
{
    let o: u32 = addr & 0x7FFF;
    let f: u32 = o | 0x8000;
    assert(f < 0x10000 && f % 0x20000 == f && f % 0x8000 == o && o < 0x8000 && o % 0x20000 == o && o
        % 0x8000 == o) by (bit_vector)
        requires
            f == o | 0x8000,
            o == addr & 0x7FFF,
    ;
    frame::law_command_fields(
        write,
        true,
        FUNC_BACKPLANE,
        register::window_address(addr, len),
        len,
    );
    lemma_synced_base(d, addr);
}

/// One step of a register write keeps it on track.
proof fn lemma_reg_write_step(
    m: RegWriteMoment,
    reply: Reply,
    n: RegWriteMoment,
    addr: u32,
    val: u32,
    len: u32,
    mem: spec_fn(int) -> u8,
)
    requires
        m.on_track(addr, val, len, mem),
        m.leads_to(reply, n),
        len <= 4,
    ensures
        n.on_track(addr, val, len, mem),
{
    match m.op.stage {
        WriteStage::Window(b) => {
            lemma_window_write(
                m.state.window,
                m.device,
                addr,
                b,
                Seq::empty(),
                reply,
                Seq::empty(),
                n.device,
            );
            lemma_enter(m.state.window, n.device, addr, b.after());
        },
        WriteStage::Data => {
            lemma_register(m.device, true, addr, len);
            assert forall|b: WindowByte| #[trigger] n.device.part(b) == wanted(addr, b) by {
                assert(m.device.part(b) == wanted(addr, b));
            }
            lemma_synced_base(n.device, addr);
        },
        WriteStage::Done => {},
    }
}

/// The moments of a run of a register write, with the replies between them.
pub open spec fn is_reg_write_run(moments: Seq<RegWriteMoment>, replies: Seq<Reply>) -> bool {
    &&& moments.len() == replies.len() + 1
    &&& forall|i: int|
        0 <= i < replies.len() ==> (#[trigger] moments[i]).leads_to(replies[i], moments[i + 1])
}

/// A register write stays on track.
proof fn lemma_reg_write_run(
    moments: Seq<RegWriteMoment>,
    replies: Seq<Reply>,
    k: int,
    addr: u32,
    val: u32,
    len: u32,
    mem: spec_fn(int) -> u8,
)
    requires
        is_reg_write_run(moments, replies),
        moments[0].on_track(addr, val, len, mem),
        len <= 4,
        0 <= k < moments.len(),
    ensures
        moments[k].on_track(addr, val, len, mem),
    decreases k,
{
    if k > 0 {
        lemma_reg_write_run(moments, replies, k - 1, addr, val, len, mem);
        lemma_reg_write_step(moments[k - 1], replies[k - 1], moments[k], addr, val, len, mem);
    }
}

/// The write of a backplane register puts the low bytes of the value into the memory of the device
/// and changes no other memory.
pub proof fn law_register_write(
    state: BusState,
    addr: u32,
    val: u32,
    len: u32,
    moments: Seq<RegWriteMoment>,
    replies: Seq<Reply>,
)
    requires
        len <= 4,
        is_reg_write_run(moments, replies),
        (moments[0].state, moments[0].op) == register::backplane_write(addr, val, len).enter(
            state,
            Some(WindowByte::High),
        ),
        reaches(state.window, moments[0].device, addr, Some(WindowByte::High)),
        moments.last().op.stage == WriteStage::Done,
    ensures
        moments.last().device.mem == stored(
            moments[0].device.mem,
            addr as int,
            buffer::bytes_of(seq![val]).take(len as int),
        ),
        agrees(moments.last().state.window, moments.last().device),
{
    let mem = moments[0].device.mem;
    lemma_enter(state.window, moments[0].device, addr, Some(WindowByte::High));
    lemma_reg_write_run(moments, replies, moments.len() - 1, addr, val, len, mem);
}

/// A moment of the read of a backplane register.
#[verifier::ext_equal]
pub struct RegReadMoment {
    pub state: BusState,
    pub op: RegRead,
    pub device: Device,
}

/// The low bytes of a word are those of the memory at `addr`.
pub open spec fn low_bytes(value: u32, len: u32, mem: spec_fn(int) -> u8, addr: u32) -> bool {
    forall|i: int| 0 <= i < len ==> #[trigger] buffer::bytes_of(seq![value])[i] == mem(addr + i)
}

impl RegReadMoment {
    /// Whether `next` can come after this moment.
    pub open spec fn leads_to(self, reply: Reply, next: RegReadMoment) -> bool {
        &&& self.op.pending() is Some
        &&& self.op.countable(self.state, reply)
        &&& self.device.serves(
            self.op.pending().unwrap(),
            Seq::empty(),
            reply,
            Seq::empty(),
            next.device,
        )
        &&& (next.state, next.op) == self.op.step(self.state, reply)
    }

    /// What holds all along of a read of `len` bytes at `addr`.
    spec fn on_track(
        self,
        addr: u32,
        len: u32,
        mem: spec_fn(int) -> u8,
        starved: u32,
    ) -> bool {
        let op = self.op;
        &&& op.wf()
        &&& op == register::backplane_read(addr, len).at(op.stage)
        &&& self.device.mem == mem
        &&& self.state.starved.seen >= starved
        &&& match op.stage {
            ReadStage::Window(b) => reaches(self.state.window, self.device, addr, Some(b)),
            _ => self.state.window == bus::window_of(addr) && synced(self.device, addr),
        }
        &&& match op.stage {
            ReadStage::Status { value, .. } => !self.device.latched ==> low_bytes(
                value,
                len,
                mem,
                addr,
            ),
            ReadStage::Done { value } => self.state.starved.seen == starved ==> low_bytes(
                value,
                len,
                mem,
                addr,
            ),
            _ => true,
        }
    }
}

/// One step of a register read keeps it on track.
proof fn lemma_reg_read_step(
    m: RegReadMoment,
    reply: Reply,
    n: RegReadMoment,
    addr: u32,
    len: u32,
    mem: spec_fn(int) -> u8,
    starved: u32,
)
    requires
        m.on_track(addr, len, mem, starved),
        m.leads_to(reply, n),
        len <= 4,
    ensures
        n.on_track(addr, len, mem, starved),
{
    match m.op.stage {
        ReadStage::Window(b) => {
            lemma_window_write(
                m.state.window,
                m.device,
                addr,
                b,
                Seq::empty(),
                reply,
                Seq::empty(),
                n.device,
            );
            lemma_enter(m.state.window, n.device, addr, b.after());
        },
        ReadStage::Data { .. } => {
            lemma_register(m.device, false, addr, len);
            let response = seq![reply.first, reply.second].take(2);
            let got = buffer::bytes_of(response);
            if !n.device.latched {
                assert forall|i: int| 0 <= i < len implies #[trigger] buffer::bytes_of(
                    seq![reply.second],
                )[i] == mem(addr + i) by {
                    assert(got[4 + i] == buffer::byte_of(reply.second, i));
                }
            }
            assert forall|b: WindowByte| #[trigger] n.device.part(b) == wanted(addr, b) by {
                assert(m.device.part(b) == wanted(addr, b));
            }
        },
        ReadStage::Status { .. } => {
            frame::law_command_fields(false, true, FUNC_BUS, SPI_STATUS_REGISTER, 4);
        },
        ReadStage::Clear { .. } => {
            frame::law_command_fields(true, true, FUNC_BUS, REG_BUS_INTERRUPT, 2);
            assert forall|b: WindowByte| #[trigger] n.device.part(b) == wanted(addr, b) by {
                assert(m.device.part(b) == wanted(addr, b));
            }
        },
        ReadStage::Done { .. } => {},
    }
}

/// The moments of a run of a register read, with the replies between them.
pub open spec fn is_reg_read_run(moments: Seq<RegReadMoment>, replies: Seq<Reply>) -> bool {
    &&& moments.len() == replies.len() + 1
    &&& forall|i: int|
        0 <= i < replies.len() ==> (#[trigger] moments[i]).leads_to(replies[i], moments[i + 1])
}

/// A register read stays on track.
proof fn lemma_reg_read_run(
    moments: Seq<RegReadMoment>,
    replies: Seq<Reply>,
    k: int,
    addr: u32,
    len: u32,
    mem: spec_fn(int) -> u8,
    starved: u32,
)
    requires
        is_reg_read_run(moments, replies),
        moments[0].on_track(addr, len, mem, starved),
        len <= 4,
        0 <= k < moments.len(),
    ensures
        moments[k].on_track(addr, len, mem, starved),
    decreases k,
{
    if k > 0 {
        lemma_reg_read_run(moments, replies, k - 1, addr, len, mem, starved);
        lemma_reg_read_step(moments[k - 1], replies[k - 1], moments[k], addr, len, mem, starved);
    }
}

/// The read of a backplane register brings what the memory of the device holds in the low bytes of
/// the value, however often the device refused it, as long as the host did not give up.
pub proof fn law_register_read(
    state: BusState,
    addr: u32,
    len: u32,
    moments: Seq<RegReadMoment>,
    replies: Seq<Reply>,
    value: u32,
)
    requires
        len <= 4,
        is_reg_read_run(moments, replies),
        (moments[0].state, moments[0].op) == register::backplane_read(addr, len).enter(
            state,
            Some(WindowByte::High),
        ),
        reaches(state.window, moments[0].device, addr, Some(WindowByte::High)),
        moments.last().op.stage == (ReadStage::Done { value }),
        moments.last().state.starved == state.starved,
    ensures
        low_bytes(value, len, moments[0].device.mem, addr),
        moments.last().device.mem == moments[0].device.mem,
        agrees(moments.last().state.window, moments.last().device),
{
    let mem = moments[0].device.mem;
    lemma_enter(state.window, moments[0].device, addr, Some(WindowByte::High));
    lemma_reg_read_run(
        moments,
        replies,
        moments.len() - 1,
        addr,
        len,
        mem,
        state.starved.seen,
    );
    lemma_synced_base(moments.last().device, addr);
}

/// The read of a backplane register gives back what the write of the same length wrote, cut to the
/// length of the register.
pub proof fn law_register_read_gives_back_write(
    state: BusState,
    addr: u32,
    val: u32,
    len: u32,
    writes: Seq<RegWriteMoment>,
    write_replies: Seq<Reply>,
    reads: Seq<RegReadMoment>,
    read_replies: Seq<Reply>,
    value: u32,
)
    requires
        len == 1 || len == 2 || len == 4,
        is_reg_write_run(writes, write_replies),
        (writes[0].state, writes[0].op) == register::backplane_write(addr, val, len).enter(
            state,
            Some(WindowByte::High),
        ),
        reaches(state.window, writes[0].device, addr, Some(WindowByte::High)),
        writes.last().op.stage == WriteStage::Done,
        is_reg_read_run(reads, read_replies),
        (reads[0].state, reads[0].op) == register::backplane_read(addr, len).enter(
            writes.last().state,
            Some(WindowByte::High),
        ),
        reads[0].device == writes.last().device,
        reads.last().op.stage == (ReadStage::Done { value }),
        reads.last().state.starved == writes.last().state.starved,
    ensures
        len == 1 ==> value % 0x100 == val % 0x100,
        len == 2 ==> value % 0x10000 == val % 0x10000,
        len == 4 ==> value == val,
{
    law_register_write(state, addr, val, len, writes, write_replies);
    law_agreement_reaches(writes.last().state.window, writes.last().device, addr);
    law_register_read(writes.last().state, addr, len, reads, read_replies, value);
    let sent = buffer::bytes_of(seq![val]);
    let got = buffer::bytes_of(seq![value]);
    assert forall|i: int| 0 <= i < len implies #[trigger] got[i] == sent[i] by {
        assert(got[i] == (reads[0].device.mem)(addr + i));
        assert(sent.take(len as int)[i] == sent[i]);
    }
    assert(got[0] == buffer::byte_of(value, 0) && sent[0] == buffer::byte_of(val, 0));
    assert(got[1] == buffer::byte_of(value, 1) && sent[1] == buffer::byte_of(val, 1));
    assert(got[2] == buffer::byte_of(value, 2) && sent[2] == buffer::byte_of(val, 2));
    assert(got[3] == buffer::byte_of(value, 3) && sent[3] == buffer::byte_of(val, 3));
    let (a, b): (u32, u32) = (value, val);
    assert(((a >> 0u32) & 0xFF) as u8 == ((b >> 0u32) & 0xFF) as u8 ==> a % 0x100 == b % 0x100 && (((
    a >> 8u32) & 0xFF) as u8 == ((b >> 8u32) & 0xFF) as u8 ==> a % 0x10000 == b % 0x10000 && (((a
        >> 16u32) & 0xFF) as u8 == ((b >> 16u32) & 0xFF) as u8 && ((a >> 24u32) & 0xFF) as u8 == ((b
        >> 24u32) & 0xFF) as u8 ==> a == b))) by (bit_vector);
}

} // verus!
