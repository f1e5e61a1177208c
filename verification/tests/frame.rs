use cyw43_spi::consts::{FUNC_BACKPLANE, FUNC_BUS, INC_ADDR, READ, WRITE};
use cyw43_spi::frame::{cmd_word, swap16, Command};

#[test]
fn command_word_has_known_value() {
    assert_eq!(cmd_word(READ, INC_ADDR, FUNC_BUS, 0x14, 4), 0x4000_A004);
    assert_eq!(cmd_word(WRITE, INC_ADDR, FUNC_BACKPLANE, 0x1000A, 1), 0xD800_5001);
    assert_eq!(cmd_word(false, false, 0, 0, 0), 0);
}

#[test]
fn command_word_cuts_fields_to_width() {
    assert_eq!(cmd_word(false, false, 7, 0, 0), 3 << 28);
    assert_eq!(cmd_word(false, false, 0, 0x2_0001, 0), 1 << 11);
    assert_eq!(cmd_word(false, false, 0, 0, 0x801), 1);
    assert_eq!(cmd_word(true, true, 0xFF, u32::MAX, u32::MAX), u32::MAX);
}

#[test]
fn fields_read_back() {
    let word = cmd_word(WRITE, INC_ADDR, FUNC_BACKPLANE, 0x8040, 64);
    assert_eq!(
        Command::of_word(word),
        Command {
            write: true,
            func: 1,
            addr: 0x8040,
            len: 64
        }
    );
    let word = cmd_word(READ, INC_ADDR, 2, 0x1FFFF, 0x7FF);
    assert_eq!(
        Command::of_word(word),
        Command {
            write: false,
            func: 2,
            addr: 0x1FFFF,
            len: 0x7FF
        }
    );
}

#[test]
fn halves_are_exchanged() {
    assert_eq!(swap16(0x4000_A004), 0xA004_4000);
    assert_eq!(swap16(0x1234_5678), 0x5678_1234);
    assert_eq!(swap16(swap16(0xFEED_BEAD)), 0xFEED_BEAD);
}
