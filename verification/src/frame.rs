//! The 32-bit command word that opens every gSPI transfer.

use vstd::prelude::*;

verus! {

/// The fields that a command word carries, besides the address mode.
#[derive(Clone, Copy, PartialEq, Eq, Structural, Debug)]
pub struct Command {
    pub write: bool,
    pub func: u32,
    pub addr: u32,
    pub len: u32,
}

/// The number that stands for a flag in a command word.
pub open spec fn flag(b: bool) -> u32 {
    if b {
        1
    } else {
        0
    }
}

/// The command word for a transfer of `len` bytes at `addr` of function `func`: direction in bit
/// 31, address mode in bit 30, function in bits 29 to 28, address in bits 27 to 11, length in
/// bits 10 to 0. What does not fit in its field is cut off.
pub open spec fn command(write: bool, incr: bool, func: u8, addr: u32, len: u32) -> u32 {
    flag(write) << 31 | flag(incr) << 30 | (func as u32 & 0b11) << 28 | (addr & 0x1FFFF) << 11 | (
    len & 0x7FF)
}

/// The fields of a command word.
pub open spec fn fields(word: u32) -> Command {
    Command {
        write: word >> 31 != 0,
        func: (word >> 28) & 0b11,
        addr: (word >> 11) & 0x1FFFF,
        len: word & 0x7FF,
    }
}

/// The word with its two halves exchanged.
pub open spec fn swapped(x: u32) -> u32 {
    x << 16 | x >> 16
}

/// Every field of a command word reads back as what went into it, cut to the field's width.
pub proof fn law_command_fields(write: bool, incr: bool, func: u8, addr: u32, len: u32)
    ensures
        fields(command(write, incr, func, addr, len)) == (Command {
            write,
            func: (func % 4) as u32,
            addr: addr % 0x20000,
            len: len % 0x800,
        }),
        (command(write, incr, func, addr, len) >> 30) & 1 == flag(incr),
{
    let w: u32 = flag(write);
    let i: u32 = flag(incr);
    let f: u32 = func as u32;
    let word: u32 = w << 31 | i << 30 | (f & 0b11) << 28 | (addr & 0x1FFFF) << 11 | (len & 0x7FF);
    assert(word >> 31 == w && (word >> 30) & 1 == i && (word >> 28) & 0b11 == f % 4 && (word >> 11)
        & 0x1FFFF == addr % 0x20000 && word & 0x7FF == len % 0x800) by (bit_vector)
        requires
            w <= 1,
            i <= 1,
            word == (w << 31 | i << 30 | (f & 0b11) << 28 | (addr & 0x1FFFF) << 11 | (len & 0x7FF)),
    ;
}

/// A word is determined by its fields and its address mode.
pub proof fn law_fields_determine_word(a: u32, b: u32)
    requires
        fields(a) == fields(b),
        (a >> 30) & 1 == (b >> 30) & 1,
    ensures
        a == b,
{
    assert(a >> 31 <= 1 && b >> 31 <= 1) by (bit_vector);
    assert(a == b) by (bit_vector)
        requires
            a >> 31 == b >> 31,
            (a >> 30) & 1 == (b >> 30) & 1,
            (a >> 28) & 0b11 == (b >> 28) & 0b11,
            (a >> 11) & 0x1FFFF == (b >> 11) & 0x1FFFF,
            a & 0x7FF == b & 0x7FF,
    ;
}

/// Exchanging the halves twice gives the word back.
pub proof fn law_swapped_twice(x: u32)
    ensures
        swapped(swapped(x)) == x,
{
    assert(((x << 16 | x >> 16) << 16 | (x << 16 | x >> 16) >> 16) == x) by (bit_vector);
}

/// The command word for one transfer.
pub fn cmd_word(write: bool, incr: bool, func: u8, addr: u32, len: u32) -> (r: u32)
    ensures
        r == command(write, incr, func, addr, len),
        fields(r) == (Command {
            write,
            func: (func % 4) as u32,
            addr: addr % 0x20000,
            len: len % 0x800,
        }),
        (r >> 30) & 1 == flag(incr),
{
    proof {
        law_command_fields(write, incr, func, addr, len);
    }
    let w: u32 = if write {
        1
    } else {
        0
    };
    let i: u32 = if incr {
        1
    } else {
        0
    };
    w << 31 | i << 30 | (func as u32 & 0b11) << 28 | (addr & 0x1FFFF) << 11 | (len & 0x7FF)
}

/// The word with its two halves exchanged: before the bus is configured the device still takes
/// words of 16 bits.
pub fn swap16(x: u32) -> (r: u32)
    ensures
        r == swapped(x),
        r == (x % 0x10000) * 0x10000 + x / 0x10000,
{
    proof {
        assert((x << 16 | x >> 16) == (x % 0x10000) * 0x10000 + x / 0x10000) by (bit_vector);
    }
    x << 16 | x >> 16
}

impl Command {
    /// Takes a command word apart.
    pub fn of_word(word: u32) -> (r: Command)
        ensures
            r == fields(word),
    {
        Command {
            write: word >> 31 != 0,
            func: (word >> 28) & 0b11,
            addr: (word >> 11) & 0x1FFFF,
            len: word & 0x7FF,
        }
    }
}

/// The value of a command word, field by field: each field is a number that is multiplied to its
/// place, and the places do not overlap.
pub proof fn law_command_layout(write: bool, incr: bool, func: u8, addr: u32, len: u32)
    ensures
        command(write, incr, func, addr, len) == (if write {
            0x8000_0000int
        } else {
            0
        }) + (if incr {
            0x4000_0000int
        } else {
            0
        }) + (func % 4) * 0x1000_0000 + (addr % 0x20000) * 0x800 + len % 0x800,
{
    let w: u32 = flag(write);
    let i: u32 = flag(incr);
    let f: u32 = func as u32;
    assert((w << 31 | i << 30 | (f & 0b11) << 28 | (addr & 0x1FFFF) << 11 | (len & 0x7FF)) == w
        * 0x8000_0000 + i * 0x4000_0000 + (f % 4) * 0x1000_0000 + (addr % 0x20000) * 0x800 + len
        % 0x800) by (bit_vector)
        requires
            w <= 1,
            i <= 1,
    ;
}

/// The fields of a word are its digits at those places.
pub proof fn law_fields_layout(word: u32)
    ensures
        fields(word).write == (word >= 0x8000_0000),
        fields(word).func == word / 0x1000_0000 % 4,
        fields(word).addr == word / 0x800 % 0x20000,
        fields(word).len == word % 0x800,
{
    assert((word >> 31 != 0) == (word >= 0x8000_0000) && (word >> 28) & 0b11 == word / 0x1000_0000
        % 4 && (word >> 11) & 0x1FFFF == word / 0x800 % 0x20000 && word & 0x7FF == word % 0x800)
        by (bit_vector);
}

/// The halves of a word and of the exchanged word are the same, the other way round.
pub proof fn law_swapped_halves(x: u32)
    ensures
        swapped(x) / 0x10000 == x % 0x10000,
        swapped(x) % 0x10000 == x / 0x10000,
{
    assert((x << 16 | x >> 16) / 0x10000 == x % 0x10000 && (x << 16 | x >> 16) % 0x10000 == x
        / 0x10000) by (bit_vector);
}

} // verus!
