//! What the bus logic asks of the hardware, and what comes back.

use vstd::prelude::*;

verus! {

/// One thing for the hardware to do.
#[derive(Clone, Copy, PartialEq, Eq, Structural, Debug)]
pub enum Action {
    /// Issue a write of the two words `cmd` and `val`.
    Write { cmd: u32, val: u32 },
    /// Issue a read with the command word `cmd` and keep the first `words` words of the response,
    /// one or two of them.
    Read { cmd: u32, words: usize },
    /// Issue a write of the first `words` words of the caller's buffer, of which the first is the
    /// command word.
    WriteBuf { words: usize },
    /// Issue a read with the command word `cmd` into the first `words` words of the caller's
    /// buffer.
    ReadBuf { cmd: u32, words: usize },
    /// Wait.
    Sleep { millis: u64 },
    /// Drive the power pin.
    Power { high: bool },
}

/// What came back from an action. A field that the action does not produce is not looked at.
#[derive(Clone, Copy, PartialEq, Eq, Structural, Debug)]
pub struct Reply {
    /// The first word of a response.
    pub first: u32,
    /// The second word of a response of two words.
    pub second: u32,
    /// The status word that the transfer itself returned.
    pub returned: u32,
}

/// Something worth a line in a log.
#[derive(Clone, Copy, PartialEq, Eq, Structural, Debug)]
pub enum Notice {
    /// A read that the device could not serve at first was answered on attempt `attempt`, counted
    /// from zero.
    Answered { func: u8, attempt: usize, count: u32 },
    /// A read stayed unanswered however often it was issued.
    Unanswered { func: u8, status: u32, count: u32 },
    /// A WLAN read frame was terminated and its packet dropped.
    Dropped { count: u32 },
}

/// How often backplane reads have collided with an arriving packet.
#[derive(Clone, Copy, PartialEq, Eq, Structural, Debug)]
pub struct Tally {
    pub reads: u32,
    pub races: u32,
    pub losses: u32,
}

/// The operation failed.
#[derive(Clone, Copy, PartialEq, Eq, Structural, Debug)]
pub struct Error;

} // verus!
