//! What goes over the wire: the commands that the operations issue, as numbers, and how many words
//! each of them moves.

use vstd::prelude::*;

use crate::buffer;
use crate::bulk;
use crate::bulk::{BpRead, BpReadStage, BpWrite, BpWriteStage};
use crate::bus;
use crate::bus::WindowByte;
use crate::consts::{FUNC_BACKPLANE, FUNC_BUS};
use crate::frame;
use crate::io::Action;
use crate::register;
use crate::register::{ReadStage, RegRead, RegWrite, WriteStage};
use crate::wlan;
use crate::wlan::{WlanRead, WlanReadStage};

verus! {

/// The command word of a transfer whose address advances: the direction, the function, the address
/// and the length, each cut to its field.
pub open spec fn word(write: bool, func: int, addr: int, len: int) -> int {
    (if write {
        0x8000_0000int
    } else {
        0
    }) + 0x4000_0000 + (func % 4) * 0x1000_0000 + (addr % 0x20000) * 0x800 + len % 0x800
}

/// The write of one register value.
pub open spec fn writes(
    action: Option<Action>,
    func: int,
    addr: int,
    len: int,
    value: int,
) -> bool {
    action matches Some(Action::Write { cmd, val }) && cmd == word(true, func, addr, len) && val
        == value
}

/// The read of a register that brings a number of words.
pub open spec fn reads(action: Option<Action>, func: int, addr: int, len: int, n: int) -> bool {
    action matches Some(Action::Read { cmd, words }) && cmd == word(false, func, addr, len)
        && words == n
}

/// The command word that an action sends, other than from the buffer of the caller.
pub open spec fn sent(action: Option<Action>) -> u32 {
    match action {
        Some(Action::Write { cmd, .. }) => cmd,
        Some(Action::Read { cmd, .. }) => cmd,
        Some(Action::ReadBuf { cmd, .. }) => cmd,
        _ => 0,
    }
}

/// The write of one of the window registers with its part of the window of `target`.
pub open spec fn writes_window(action: Option<Action>, b: WindowByte, target: int) -> bool {
    match b {
        WindowByte::High => writes(action, 1, 0x1000C, 1, target / 0x1000000),
        WindowByte::Mid => writes(action, 1, 0x1000B, 1, target / 0x10000 % 0x100),
        WindowByte::Low => writes(action, 1, 0x1000A, 1, target / 0x8000 % 2 * 0x80),
    }
}

/// The read of the status register: one word of the bus function.
pub open spec fn reads_status(action: Option<Action>) -> bool {
    reads(action, 0, 8, 4, 1)
}

/// The write that clears the latched refusal: bit 0 of the interrupt register.
pub open spec fn clears_latch(action: Option<Action>) -> bool {
    writes(action, 0, 4, 2, 1)
}

/// A word as a device that still takes words of 16 bits understands it.
pub open spec fn halves(x: u32) -> int {
    (x % 0x10000) * 0x10000 + x / 0x10000
}

/// The write of one register value while the device still takes words of 16 bits.
pub open spec fn writes_halves(
    action: Option<Action>,
    func: int,
    addr: int,
    len: int,
    value: int,
) -> bool {
    action matches Some(Action::Write { cmd, val }) && halves(cmd) == word(true, func, addr, len)
        && halves(val) == value
}

/// The read of a register while the device still takes words of 16 bits.
pub open spec fn reads_halves(action: Option<Action>, func: int, addr: int, len: int) -> bool {
    action matches Some(Action::Read { cmd, words }) && halves(cmd) == word(false, func, addr, len)
        && words == 1
}

/// The command words that are asked for are those words.
proof fn lemma_word(write: bool, func: u8, addr: u32, len: u32)
    ensures
        frame::command(write, true, func, addr, len) == word(
            write,
            func as int,
            addr as int,
            len as int,
        ),
{
    frame::law_command_layout(write, true, func, addr, len);
}

/// The writes and reads that several operations share.
proof fn lemma_shared(b: WindowByte, target: u32)
    ensures
        writes_window(Some(b.write_for(target)), b, target as int),
        reads_status(Some(bus::status_read())),
        clears_latch(Some(register::clear_unavailable())),
        register::clear_command() == sent(Some(register::clear_unavailable())),
        frame::command(true, true, FUNC_BACKPLANE, b.register(), 1) == sent(
            Some(b.write_for(target)),
        ),
{
    lemma_word(true, FUNC_BACKPLANE, b.register(), 1);
    lemma_word(false, FUNC_BUS, 8, 4);
    lemma_word(true, FUNC_BUS, 4, 2);
    bus::law_window_digits(target);
}

/// The address of a backplane register within the window: words carry the word flag.
proof fn lemma_window_address(addr: u32, len: u32)
    ensures
        register::window_address(addr, len) == addr % 0x8000 + if len == 4 {
            0x8000int
        } else {
            0
        },
        (addr & 0x7FFF) == addr % 0x8000,
        ((addr & 0x7FFF) | 0x8000) == addr % 0x8000 + 0x8000,
{
    assert((addr & 0x7FFF) == addr % 0x8000 && ((addr & 0x7FFF) | 0x8000) == addr % 0x8000 + 0x8000)
        by (bit_vector);
}

/// What a register read asks for at each stage. A backplane register, of whatever length, takes
/// two words, so the second word of the reply is one that was asked for; any other register takes
/// one.
pub proof fn law_register_read_asks(op: RegRead)
    ensures
        match op.stage {
            ReadStage::Window(b) => writes_window(op.pending(), b, op.target as int),
            ReadStage::Data { .. } => reads(
                op.pending(),
                op.func as int,
                op.addr as int,
                op.len as int,
                if op.func == 1 {
                    2
                } else {
                    1
                },
            ),
            ReadStage::Status { .. } => reads_status(op.pending()),
            ReadStage::Clear { .. } => clears_latch(op.pending()),
            ReadStage::Done { .. } => op.pending() is None,
        },
{
    lemma_word(false, op.func, op.addr, op.len);
    match op.stage {
        ReadStage::Window(b) => lemma_shared(b, op.target),
        _ => lemma_shared(WindowByte::High, 0),
    }
}

/// What a register write asks for at each stage: the value goes out as it was given, with the
/// function, address and length that were given.
pub proof fn law_register_write_asks(op: RegWrite)
    ensures
        match op.stage {
            WriteStage::Window(b) => writes_window(op.pending(), b, op.target as int),
            WriteStage::Data => writes(
                op.pending(),
                op.func as int,
                op.addr as int,
                op.len as int,
                op.val as int,
            ),
            WriteStage::Done => op.pending() is None,
        },
{
    lemma_word(true, op.func, op.addr, op.len);
    match op.stage {
        WriteStage::Window(b) => lemma_shared(b, op.target),
        _ => {},
    }
}

/// An access to a backplane register is one on the backplane function, at the place of the register
/// in the window of its address, with the length of the register; only words carry the word flag.
pub proof fn law_backplane_register(addr: u32, val: u32, len: u32)
    ensures
        ({
            let r = register::backplane_read(addr, len);
            let w = register::backplane_write(addr, val, len);
            let place = addr % 0x8000 + if len == 4 {
                0x8000int
            } else {
                0
            };
            &&& r.target == addr && r.func == 1 && r.addr == place && r.len == len
            &&& w.target == addr && w.func == 1 && w.addr == place && w.len == len && w.val == val
        }),
{
    lemma_window_address(addr, len);
}

/// What a block read asks for at each stage. A transfer asks for the bytes under way, moved as
/// words, and for the words that hold them behind one word of response delay, no fewer and no more.
pub proof fn law_block_read_asks(op: BpRead)
    requires
        op.wf(),
    ensures
        match op.stage {
            BpReadStage::Window(b) => writes_window(op.pending(), b, op.addr as int),
            BpReadStage::Data { .. } => op.pending() matches Some(Action::ReadBuf { cmd, words })
                && cmd == word(false, 1, op.addr % 0x8000 + 0x8000, op.chunk()) && 4
                + frame::fields(cmd).len <= 4 * words < 8 + frame::fields(cmd).len
                && frame::fields(cmd).len == op.chunk(),
            BpReadStage::Status { .. } => reads_status(op.pending()),
            BpReadStage::Clear { .. } => clears_latch(op.pending()),
            BpReadStage::Done => op.pending() is None,
        },
{
    match op.stage {
        BpReadStage::Window(b) => lemma_shared(b, op.addr),
        BpReadStage::Data { .. } => lemma_transfer_word(false, op.addr, op.total - op.done),
        _ => lemma_shared(WindowByte::High, 0),
    }
}

/// What a block write asks for at each stage. A transfer sends the words that hold the command word
/// and the bytes under way, no fewer and no more.
pub proof fn law_block_write_asks(op: BpWrite)
    requires
        op.wf(),
    ensures
        match op.stage {
            BpWriteStage::Window(b) => writes_window(op.pending(), b, op.addr as int),
            BpWriteStage::Data => op.pending() matches Some(Action::WriteBuf { words }) && op.command()
                == word(true, 1, op.addr % 0x8000 + 0x8000, op.chunk()) && 4 + frame::fields(
                op.command(),
            ).len <= 4 * words < 8 + frame::fields(op.command()).len && frame::fields(
                op.command(),
            ).len == op.chunk(),
            BpWriteStage::Done => op.pending() is None,
        },
{
    match op.stage {
        BpWriteStage::Window(b) => lemma_shared(b, op.addr),
        BpWriteStage::Data => lemma_transfer_word(true, op.addr, op.total - op.done),
        BpWriteStage::Done => {},
    }
}

/// The command word of a transfer.
proof fn lemma_transfer_word(write: bool, addr: u32, left: int)
    requires
        left >= 1,
    ensures
        ({
            let len = bulk::chunk_len(addr, left);
            let cmd = bulk::transfer_command(write, addr, len);
            &&& cmd == word(write, 1, addr % 0x8000 + 0x8000, len)
            &&& frame::fields(cmd).len == len
            &&& 1 <= len <= 64
            &&& len <= 4 * buffer::words_for(len) < len + 4
        }),
{
    bulk::law_transfer_in_window(addr, left);
    let len = bulk::chunk_len(addr, left);
    lemma_window_address(addr, 4);
    lemma_word(write, FUNC_BACKPLANE, (addr & 0x7FFF) | 0x8000, len as u32);
    frame::law_command_fields(
        write,
        true,
        FUNC_BACKPLANE,
        (addr & 0x7FFF) | 0x8000,
        len as u32,
    );
    buffer::law_words_hold_bytes(len);
}

/// What a packet read asks for at each stage. The packet takes the words that hold the whole
/// buffer, whatever its length; a frame that was refused is terminated by bit 0 of the frame
/// control register, and the device then gets a millisecond.
pub proof fn law_packet_read_asks(op: WlanRead)
    ensures
        match op.stage {
            WlanReadStage::Data => op.pending() matches Some(Action::ReadBuf { cmd, words }) && cmd
                == word(false, 2, 0, op.len as int) && op.len <= 4 * words < op.len + 4,
            WlanReadStage::Status => reads_status(op.pending()),
            WlanReadStage::Abort => writes(op.pending(), 1, 0x1000D, 1, 1),
            WlanReadStage::Settle => op.pending() matches Some(Action::Sleep { millis }) && millis
                == 1,
            WlanReadStage::Done { .. } => op.pending() is None,
        },
{
    lemma_shared(WindowByte::High, 0);
    lemma_word(false, 2, 0, op.len);
    lemma_word(true, FUNC_BACKPLANE, 0x1000D, 1);
    buffer::law_words_hold_bytes(op.len as int);
}

/// A packet write sends the words that hold the whole buffer; the command word, which goes into its
/// first four bytes, asks for the bytes behind them.
pub proof fn law_packet_write_asks(size: int)
    requires
        4 <= size <= usize::MAX,
    ensures
        ({
            let op = wlan::packet_write(size);
            &&& !op.done
            &&& op.pending() matches Some(Action::WriteBuf { words }) && size <= 4 * words < size + 4
            &&& size - 4 <= u32::MAX ==> op.cmd == word(true, 2, 0, size - 4)
        }),
{
    lemma_word(true, 2, 0, (size - 4) as u32);
    buffer::law_words_hold_bytes(size);
}

} // verus!
