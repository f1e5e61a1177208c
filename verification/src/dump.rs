//! Showing the recorded transactions.

use vstd::prelude::*;

use crate::bus::SpiBus;
use crate::frame;
use crate::frame::Command;
use crate::oplog::UNINSTRUMENTED;

verus! {

/// How long to wait after every fourth line, so that the reader of the dump keeps up.
pub const DUMP_PAUSE_MILLIS: u64 = 2;

/// One piece of a dump.
#[derive(Clone, Copy, PartialEq, Eq, Structural, Debug)]
pub enum DumpItem {
    /// There is nothing to show.
    Empty,
    /// How many transactions follow, oldest first.
    Header { count: usize },
    /// One transaction, with its status if that was read.
    Line { index: usize, command: Command, status: Option<u32> },
    /// Wait before going on.
    Pause { millis: u64 },
}

/// The line for a transaction.
pub open spec fn line(index: int, entry: (u32, u32)) -> DumpItem {
    DumpItem::Line {
        index: index as usize,
        command: frame::fields(entry.0),
        status: if entry.1 == UNINSTRUMENTED {
            None
        } else {
            Some(entry.1)
        },
    }
}

/// The lines for the first `n` transactions, with a pause after every fourth.
pub open spec fn lines(entries: Seq<(u32, u32)>, n: int) -> Seq<DumpItem>
    decreases n,
{
    if n <= 0 {
        Seq::empty()
    } else {
        let before = lines(entries, n - 1).push(line(n - 1, entries[n - 1]));
        if n % 4 == 0 {
            before.push(DumpItem::Pause { millis: DUMP_PAUSE_MILLIS })
        } else {
            before
        }
    }
}

/// The whole dump of a log.
pub open spec fn dump(entries: Seq<(u32, u32)>) -> Seq<DumpItem> {
    if entries.len() == 0 {
        seq![DumpItem::Empty]
    } else {
        seq![DumpItem::Header { count: entries.len() as usize }] + lines(
            entries,
            entries.len() as int,
        )
    }
}

/// Where the pieces of the first `n` transactions are found: four lines and a pause, over and
/// over.
proof fn lemma_lines(entries: Seq<(u32, u32)>, n: int)
    requires
        0 <= n <= entries.len(),
    ensures
        lines(entries, n).len() == n + n / 4,
        forall|p: int|
            0 <= p < n + n / 4 ==> #[trigger] lines(entries, n)[p] == if p % 5 == 4 {
                DumpItem::Pause { millis: DUMP_PAUSE_MILLIS }
            } else {
                line(4 * (p / 5) + p % 5, entries[4 * (p / 5) + p % 5])
            },
    decreases n,
{
    if n > 0 {
        lemma_lines(entries, n - 1);
        let last = n - 1 + (n - 1) / 4;
        assert(last % 5 != 4 && 4 * (last / 5) + last % 5 == n - 1);
        if n % 4 == 0 {
            assert(last % 5 == 3);
        }
    }
}

/// A dump under way.
#[derive(Clone, Copy, PartialEq, Eq, Structural, Debug)]
pub struct Dump {
    /// How many pieces have been handed out.
    pub pos: usize,
}

impl Dump {
    /// The next piece of the dump; none once all have been handed out.
    pub fn next<PWR, SPI>(&mut self, bus: &SpiBus<PWR, SPI>) -> (r: Option<DumpItem>)
        requires
            bus.wf(),
        ensures
            r == (if old(self).pos < dump(bus@.log.entries).len() {
                Some(dump(bus@.log.entries)[old(self).pos as int])
            } else {
                None
            }),
            final(self).pos == (if r is Some {
                old(self).pos + 1
            } else {
                old(self).pos as int
            }),
    {
        let ghost entries = bus@.log.entries;
        let ops = bus.ops();
        let count: usize = ops.count();
        proof {
            lemma_lines(entries, entries.len() as int);
        }
        let pos: usize = self.pos;
        if count == 0 {
            if pos == 0 {
                self.pos = 1;
                return Some(DumpItem::Empty);
            }
            return None;
        }
        if pos >= 1 + count + count / 4 {
            return None;
        }
        self.pos = pos + 1;
        if pos == 0 {
            return Some(DumpItem::Header { count });
        }
        let p: usize = pos - 1;
        if p % 5 == 4 {
            return Some(DumpItem::Pause { millis: DUMP_PAUSE_MILLIS });
        }
        let index: usize = 4 * (p / 5) + p % 5;
        let (cmd, status) = ops.get(index);
        Some(
            DumpItem::Line {
                index,
                command: Command::of_word(cmd),
                status: if status == UNINSTRUMENTED {
                    None
                } else {
                    Some(status)
                },
            },
        )
    }
}

impl<PWR, SPI> SpiBus<PWR, SPI> {
    /// Starts to dump the recorded transactions.
    pub fn dump_bus_ops(&self) -> (r: Dump)
        ensures
            r == (Dump { pos: 0 }),
    {
        Dump { pos: 0 }
    }
}

/// A dump of an empty log is one piece that says so. Else it opens with the number of transactions;
/// every transaction has a line, in order, and every fourth line is followed by a pause of two
/// milliseconds, and there is nothing else. A line shows the fields of the command word, and the
/// status unless it is zero.
pub proof fn law_dump_shows_everything(entries: Seq<(u32, u32)>, i: int)
    requires
        0 <= i < entries.len() <= 32,
    ensures
        dump(Seq::empty()) == seq![DumpItem::Empty],
        dump(entries).len() == 1 + entries.len() + entries.len() / 4,
        dump(entries)[0] == (DumpItem::Header { count: entries.len() as usize }),
        dump(entries)[1 + i + i / 4] == (DumpItem::Line {
            index: i as usize,
            command: Command {
                write: entries[i].0 >= 0x8000_0000,
                func: entries[i].0 / 0x1000_0000 % 4,
                addr: entries[i].0 / 0x800 % 0x20000,
                len: entries[i].0 % 0x800,
            },
            status: if entries[i].1 == 0 {
                None
            } else {
                Some(entries[i].1)
            },
        }),
        i % 4 == 3 ==> dump(entries)[2 + i + i / 4] == (DumpItem::Pause { millis: 2 }),
{
    lemma_lines(entries, entries.len() as int);
    frame::law_fields_layout(entries[i].0);
    let p = i + i / 4;
    assert(p % 5 != 4 && 4 * (p / 5) + p % 5 == i);
    assert(dump(entries)[1 + p] == lines(entries, entries.len() as int)[p]);
    if i % 4 == 3 {
        assert((p + 1) % 5 == 4);
        assert(dump(entries)[2 + p] == lines(entries, entries.len() as int)[p + 1]);
    }
}

} // verus!
