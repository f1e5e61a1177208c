//! A short record of the last bus transactions, kept for post-mortem.

use vstd::prelude::*;

use crate::consts::{
    STATUS_DATA_NOT_AVAILABLE, STATUS_HOST_CMD_DATA_ERR, STATUS_OVERFLOW, STATUS_UNDERFLOW,
};

verus! {

/// How many bus transactions are kept.
pub const OP_LOG_LEN: usize = 32;

/// Placeholder status of a transaction whose status was not read. It has no bit set, so it never
/// freezes the log.
pub const UNINSTRUMENTED: u32 = 0;

/// The status bits that report a failed transfer.
pub const ERRORS: u32 = STATUS_DATA_NOT_AVAILABLE | STATUS_UNDERFLOW | STATUS_OVERFLOW
    | STATUS_HOST_CMD_DATA_ERR;

/// What an `OpLog` holds: command words with their status words, oldest first, and whether
/// recording has stopped.
#[verifier::ext_equal]
pub struct LogState {
    pub entries: Seq<(u32, u32)>,
    pub frozen: bool,
}

impl LogState {
    /// Nothing recorded, recording.
    pub open spec fn empty() -> LogState {
        LogState { entries: Seq::empty(), frozen: false }
    }

    /// The state after one more transaction. A frozen log stays as it is; else the transaction
    /// becomes the newest entry, the oldest one leaves if there is no room, and a status with an
    /// error bit freezes the log.
    pub open spec fn record(self, cmd: u32, status: u32) -> LogState {
        if self.frozen {
            self
        } else {
            let all = self.entries.push((cmd, status));
            LogState {
                entries: if all.len() > OP_LOG_LEN {
                    all.drop_first()
                } else {
                    all
                },
                frozen: status & ERRORS != 0,
            }
        }
    }
}

/// The last transactions before the bus first reported an error.
///
/// Recording stops the moment a transfer comes back with an error bit set, so what is left is the
/// run-up to it.
pub struct OpLog {
    ops: [(u32, u32); OP_LOG_LEN],
    next: usize,
    len: usize,
    frozen: bool,
}

impl View for OpLog {
    type V = LogState;

    closed spec fn view(&self) -> LogState {
        LogState {
            entries: Seq::new(self.len as nat, |i: int| self.ring()[(self.oldest() + i) % 32]),
            frozen: self.frozen,
        }
    }
}

impl OpLog {
    /// The log holds no more transactions than there are slots, and the oldest is in one of them.
    pub open spec fn wf(&self) -> bool {
        &&& self.within_ring()
        &&& self.ring().len() == OP_LOG_LEN
        &&& 0 <= self.oldest() < OP_LOG_LEN
        &&& self@.entries.len() <= OP_LOG_LEN
    }

    /// The position in the ring stays within it.
    pub closed spec fn within_ring(&self) -> bool {
        &&& self.next < OP_LOG_LEN
        &&& self.len <= OP_LOG_LEN
    }

    /// The slots of the ring, those that hold no transaction yet included.
    pub closed spec fn ring(&self) -> Seq<(u32, u32)> {
        self.ops@
    }

    /// The slot of the oldest transaction.
    pub closed spec fn oldest(&self) -> int {
        (self.next + OP_LOG_LEN - self.len) % 32
    }

    /// An empty log.
    pub fn new() -> (r: OpLog)
        ensures
            r.wf(),
            r@ == LogState::empty(),
            r.ring() == Seq::new(OP_LOG_LEN as nat, |i: int| (0u32, 0u32)),
            r.oldest() == 0,
    {
        let r = OpLog { ops: [(0, 0);OP_LOG_LEN], next: 0, len: 0, frozen: false };
        assert(r.ring() =~= Seq::new(OP_LOG_LEN as nat, |i: int| (0u32, 0u32)));
        r
    }

    /// Starts recording from a clean slate: the status words that come back before the bus is
    /// configured mean nothing.
    pub fn arm(&mut self)
        ensures
            final(self).wf(),
            final(self)@ == LogState::empty(),
            final(self).ring() == Seq::new(OP_LOG_LEN as nat, |i: int| (0u32, 0u32)),
            final(self).oldest() == 0,
    {
        *self = OpLog::new();
    }

    /// Records one transaction and its status, unless already frozen.
    pub fn record(&mut self, cmd: u32, status: u32)
        requires
            old(self).wf(),
        ensures
            final(self).wf(),
            final(self)@ == old(self)@.record(cmd, status),
            old(self)@.frozen ==> *final(self) == *old(self),
            !old(self)@.frozen ==> final(self).ring() == old(self).ring().update(
                (old(self).oldest() + old(self)@.entries.len()) % 32,
                (cmd, status),
            ),
            !old(self)@.frozen ==> final(self).oldest() == (if old(self)@.entries.len()
                < OP_LOG_LEN {
                old(self).oldest()
            } else {
                (old(self).oldest() + 1) % 32
            }),
    {
        if self.frozen {
            return;
        }
        self.ops[self.next] = (cmd, status);
        self.next = (self.next + 1) % OP_LOG_LEN;
        if self.len < OP_LOG_LEN {
            self.len = self.len + 1;
        }
        if status & ERRORS != 0 {
            self.frozen = true;
        }
        assert(self@.entries =~= old(self)@.record(cmd, status).entries);
    }

    /// How many transactions are held.
    pub fn count(&self) -> (r: usize)
        requires
            self.wf(),
        ensures
            r == self@.entries.len(),
            r <= OP_LOG_LEN,
    {
        self.len
    }

    /// The `i`th transaction, oldest first. Past the last one it is whatever its slot of the ring
    /// holds.
    pub fn get(&self, i: usize) -> (r: (u32, u32))
        requires
            self.wf(),
            self.oldest() + i <= usize::MAX,
        ensures
            i < self@.entries.len() ==> r == self@.entries[i as int],
            r == self.ring()[(self.oldest() + i) % 32],
    {
        let start: usize = (self.next + OP_LOG_LEN - self.len) % OP_LOG_LEN;
        self.ops[(start + i) % OP_LOG_LEN]
    }
}

/// Whether a status word reports a failed transfer.
pub open spec fn failed(status: u32) -> bool {
    status & ERRORS != 0
}

/// What a log holds after a number of transactions.
pub open spec fn log_of(ops: Seq<(u32, u32)>) -> LogState
    decreases ops.len(),
{
    if ops.len() == 0 {
        LogState::empty()
    } else {
        log_of(ops.drop_last()).record(ops.last().0, ops.last().1)
    }
}

/// The last transactions of a sequence, as many as a log holds.
pub open spec fn newest(ops: Seq<(u32, u32)>) -> Seq<(u32, u32)> {
    if ops.len() > OP_LOG_LEN {
        ops.skip(ops.len() - OP_LOG_LEN)
    } else {
        ops
    }
}

/// The log holds the run-up to the first failed transfer: if transaction `n` is the first that
/// failed, the newest of the transactions up to and including it, whatever came after. While none
/// has failed, it holds the newest of all.
pub proof fn law_log_is_run_up(ops: Seq<(u32, u32)>, n: int)
    requires
        0 <= n <= ops.len(),
        forall|i: int| 0 <= i < n ==> !failed(#[trigger] ops[i].1),
        n < ops.len() ==> failed(ops[n].1),
    ensures
        log_of(ops) == (LogState {
            entries: newest(
                if n < ops.len() {
                    ops.take(n + 1)
                } else {
                    ops
                },
            ),
            frozen: n < ops.len(),
        }),
    decreases ops.len(),
{
    if ops.len() > 0 {
        let before = ops.drop_last();
        let m = if n < before.len() {
            n
        } else {
            before.len() as int
        };
        assert forall|i: int| 0 <= i < m implies !failed(#[trigger] before[i].1) by {
            assert(before[i] == ops[i]);
        }
        if m < before.len() {
            assert(before[m] == ops[m]);
        }
        law_log_is_run_up(before, m);
        if m < before.len() {
            assert(before.take(m + 1) =~= ops.take(m + 1));
        } else {
            assert(ops =~= before.push(ops.last()));
            let kept = if n < ops.len() {
                ops.take(n + 1)
            } else {
                ops
            };
            assert(kept =~= ops);
            let all = newest(before).push(ops.last());
            assert(log_of(before).entries == newest(before));
            assert(log_of(ops).entries =~= newest(ops));
        }
    }
}

/// The transaction that froze a log is the last one in it, and the only one that failed.
pub proof fn law_frozen_log_ends_with_failure(ops: Seq<(u32, u32)>)
    requires
        log_of(ops).frozen,
    ensures
        ({
            let entries = log_of(ops).entries;
            &&& entries.len() >= 1
            &&& failed(entries.last().1)
            &&& forall|i: int| 0 <= i < entries.len() - 1 ==> !failed(#[trigger] entries[i].1)
        }),
{
    let n = lemma_first_failure(ops, 0);
    law_log_is_run_up(ops, n);
    let kept = ops.take(n + 1);
    let entries = newest(kept);
    assert forall|i: int| 0 <= i < entries.len() - 1 implies !failed(#[trigger] entries[i].1) by {
        let k = kept.len() - entries.len() + i;
        assert(entries[i] == ops[k]);
    }
    assert(entries.last() == ops[n]);
}

/// The first failed transaction from `k` on, or the number of transactions.
proof fn lemma_first_failure(ops: Seq<(u32, u32)>, k: int) -> (n: int)
    requires
        0 <= k <= ops.len(),
        forall|i: int| 0 <= i < k ==> !failed(#[trigger] ops[i].1),
    ensures
        k <= n <= ops.len(),
        forall|i: int| 0 <= i < n ==> !failed(#[trigger] ops[i].1),
        n < ops.len() ==> failed(ops[n].1),
    decreases ops.len() - k,
{
    if k == ops.len() || failed(ops[k].1) {
        k
    } else {
        lemma_first_failure(ops, k + 1)
    }
}

/// A transaction whose status was not read never freezes a log.
pub proof fn law_uninstrumented_never_freezes(log: LogState, cmd: u32)
    ensures
        log.record(cmd, UNINSTRUMENTED).frozen == log.frozen,
{
    assert(0u32 & ERRORS == 0) by (bit_vector);
}

/// A transfer failed if the device had no data, a FIFO ran empty or over, or the command was in
/// error: bits 0, 1, 2 and 7 of the status word, and no others.
pub proof fn law_failure_bits(status: u32)
    ensures
        failed(status) == (status % 2 == 1 || status / 2 % 2 == 1 || status / 4 % 2 == 1 || status
            / 128 % 2 == 1),
{
    assert((status & ERRORS != 0) == (status % 2 == 1 || status / 2 % 2 == 1 || status / 4 % 2 == 1
        || status / 128 % 2 == 1)) by (bit_vector);
}

/// A transaction that is recorded is the newest entry; the entries before it are the newest of the
/// old ones, in their order, and 32 are kept at most. A frozen log keeps what it has.
pub proof fn law_record_keeps_newest(log: LogState, cmd: u32, status: u32)
    requires
        log.entries.len() <= 32,
    ensures
        log.frozen ==> log.record(cmd, status) == log,
        !log.frozen ==> ({
            let after = log.record(cmd, status);
            &&& after.entries.len() == if log.entries.len() < 32 {
                log.entries.len() + 1
            } else {
                32
            }
            &&& after.entries.last() == (cmd, status)
            &&& after.entries.drop_last().is_suffix_of(log.entries)
            &&& after.frozen == failed(status)
        }),
{
}

} // verus!
