//! A model of the packet FIFO of the device, and what packet reads and writes achieve when they are
//! run against it.

use vstd::prelude::*;

use crate::buffer;
use crate::bus::BusState;
use crate::io::{Action, Reply};
use crate::wire;
use crate::wlan;
use crate::wlan::{WlanRead, WlanReadStage};

verus! {

/// The part of the device that the packet accesses see: the packet that waits, whether a read that
/// could not be served is latched, whether its frame is still open, and whether the FIFO is being
/// emptied of a terminated frame.
#[verifier::ext_equal]
pub struct Fifo {
    pub packet: Seq<u8>,
    pub latched: bool,
    pub open: bool,
    pub draining: bool,
}

impl Fifo {
    /// Whether the device can become `next`, with the given reply, on an action that leaves the
    /// words of the caller's buffer as `after`.
    ///
    /// A read of the packet is served, and then fills the words that it asks for and no others, or
    /// it is refused, which is latched and leaves the frame open, and brings anything. A read that
    /// asks for something else than the packet, or while the FIFO is being emptied, does anything.
    pub open spec fn serves(
        self,
        action: Action,
        before: Seq<u32>,
        reply: Reply,
        after: Seq<u32>,
        next: Fifo,
    ) -> bool {
        match action {
            Action::ReadBuf { cmd, words } => {
                &&& after.len() == before.len()
                &&& forall|k: int| words <= k < after.len() ==> #[trigger] after[k] == before[k]
                &&& words <= after.len() && !self.draining && cmd == wire::word(
                    false,
                    2,
                    0,
                    self.packet.len() as int,
                ) ==> {
                    ||| next == Fifo { latched: true, open: true, ..self }
                    ||| next == self && forall|i: int|
                        0 <= i < self.packet.len() && i < 4 * words ==> #[trigger] buffer::bytes_of(
                            after,
                        )[i] == self.packet[i]
                }
            },
            Action::Read { cmd, words } => {
                &&& after == before
                &&& next == self
                &&& cmd == wire::word(false, 0, 8, 4) && words >= 1 ==> (reply.first % 2 == 1)
                    == self.latched
            },
            Action::Write { cmd, val } => {
                &&& after == before
                &&& cmd == wire::word(true, 1, 0x1000D, 1) && val == 1 ==> next == Fifo {
                    open: false,
                    draining: true,
                    ..self
                }
            },
            Action::Sleep { millis } => {
                &&& after == before
                &&& next == Fifo { draining: self.draining && millis < 1, ..self }
            },
            Action::WriteBuf { .. } | Action::Power { .. } => after == before && next == self,
        }
    }
}

/// A moment of a packet read: the host, the operation, the device and the words of the buffer.
#[verifier::ext_equal]
pub struct PacketMoment {
    pub state: BusState,
    pub op: WlanRead,
    pub fifo: Fifo,
    pub words: Seq<u32>,
}

impl PacketMoment {
    /// Whether `next` can come after this moment.
    pub open spec fn leads_to(self, reply: Reply, next: PacketMoment) -> bool {
        &&& self.op.pending() is Some
        &&& self.fifo.serves(
            self.op.pending().unwrap(),
            self.words,
            reply,
            next.words,
            next.fifo,
        )
        &&& (next.state, next.op) == self.op.step(self.state, reply)
    }

    /// What holds all along of a read of the packet `first` has.
    spec fn on_track(self, first: Fifo) -> bool {
        let size = first.packet.len() as int;
        let refused = Fifo { latched: true, open: true, ..first };
        let whole = forall|i: int|
            0 <= i < size ==> #[trigger] buffer::bytes_of(self.words)[i] == first.packet[i];
        &&& self.op.len == size
        &&& self.words.len() == buffer::words_for(size)
        &&& match self.op.stage {
            WlanReadStage::Data => self.fifo == first,
            WlanReadStage::Status => self.fifo == refused || (self.fifo == first && whole),
            WlanReadStage::Abort => self.fifo.latched && !self.fifo.draining,
            WlanReadStage::Settle => self.fifo.latched && !self.fifo.open,
            WlanReadStage::Done { served } => if served {
                self.fifo == first && whole && !first.latched
            } else {
                self.fifo.latched && !self.fifo.open && !self.fifo.draining
            },
        }
    }
}

/// One step of a packet read keeps it on track.
proof fn lemma_packet_step(m: PacketMoment, reply: Reply, n: PacketMoment, first: Fifo)
    requires
        m.on_track(first),
        m.leads_to(reply, n),
        !first.draining,
    ensures
        n.on_track(first),
{
    wire::law_packet_read_asks(m.op);
    wlan::law_packet_read_course(m.op, m.state, reply);
    buffer::law_words_hold_bytes(first.packet.len() as int);
}

/// The moments of a run of a packet read, with the replies between them.
pub open spec fn is_packet_run(moments: Seq<PacketMoment>, replies: Seq<Reply>) -> bool {
    &&& moments.len() == replies.len() + 1
    &&& forall|i: int|
        0 <= i < replies.len() ==> (#[trigger] moments[i]).leads_to(replies[i], moments[i + 1])
}

/// A packet read stays on track.
proof fn lemma_packet_run(moments: Seq<PacketMoment>, replies: Seq<Reply>, k: int)
    requires
        is_packet_run(moments, replies),
        moments[0].on_track(moments[0].fifo),
        !moments[0].fifo.draining,
        0 <= k < moments.len(),
    ensures
        moments[k].on_track(moments[0].fifo),
    decreases k,
{
    if k > 0 {
        lemma_packet_run(moments, replies, k - 1);
        lemma_packet_step(moments[k - 1], replies[k - 1], moments[k], moments[0].fifo);
    }
}

/// A packet read that succeeds leaves the whole packet in the buffer, whatever its length, and the
/// device as it was. One that fails leaves no frame open and a FIFO that has been emptied; the read
/// fails only if a refusal was latched.
pub proof fn law_packet_is_delivered(
    size: int,
    moments: Seq<PacketMoment>,
    replies: Seq<Reply>,
    served: bool,
)
    requires
        0 <= size <= u32::MAX,
        is_packet_run(moments, replies),
        moments[0].op == wlan::packet_read(size),
        moments[0].words.len() == buffer::words_for(size),
        moments[0].fifo.packet.len() == size,
        !moments[0].fifo.draining,
        moments.last().op.stage == (WlanReadStage::Done { served }),
    ensures
        served ==> buffer::bytes_of(moments.last().words).take(size) == moments[0].fifo.packet,
        served ==> moments.last().fifo == moments[0].fifo,
        !served ==> !moments.last().fifo.open && !moments.last().fifo.draining,
        served == !moments.last().fifo.latched,
{
    lemma_packet_run(moments, replies, moments.len() - 1);
    buffer::law_words_hold_bytes(size);
    if served {
        assert(buffer::bytes_of(moments.last().words).take(size) =~= moments[0].fifo.packet);
    }
}

/// What a packet write sends is its command word and then every byte of the packet, which stands in
/// the buffer behind the place of the command word.
pub proof fn law_packet_is_sent(size: int, words: Seq<u32>)
    requires
        4 <= size <= u32::MAX,
        size <= usize::MAX,
        words.len() == buffer::words_for(size),
    ensures
        ({
            let op = wlan::packet_write(size);
            let filled = words.update(0, op.cmd);
            &&& op.pending() matches Some(Action::WriteBuf { words: n }) && n <= filled.len() && {
                let out = filled.take(n as int);
                &&& out[0] == wire::word(true, 2, 0, size - 4)
                &&& size <= buffer::bytes_of(out).len()
                &&& buffer::bytes_of(out).subrange(4, size) == buffer::bytes_of(words).subrange(
                    4,
                    size,
                )
            }
        }),
{
    let op = wlan::packet_write(size);
    wire::law_packet_write_asks(size);
    buffer::law_words_hold_bytes(size);
    let filled = words.update(0, op.cmd);
    let n = op.words as int;
    let out = filled.take(n);
    assert forall|i: int| 4 <= i < size implies #[trigger] buffer::bytes_of(out)[i]
        == buffer::bytes_of(words)[i] by {
        assert(out[i / 4] == words[i / 4]);
    }
    assert(buffer::bytes_of(out).subrange(4, size) =~= buffer::bytes_of(words).subrange(4, size));
}

} // verus!
