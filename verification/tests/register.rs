use cyw43_spi::bus::{SpiBus, Decision};
use cyw43_spi::consts::{FUNC_BACKPLANE, FUNC_BUS, REG_BUS_TEST_RO};
use cyw43_spi::io::{Action, Notice, Reply, Tally};
use cyw43_spi::register::{RegRead, RegWrite};

const STATUS: Action = Action::Read { cmd: 0x4000_4004, words: 1 };
const CLEAR: Action = Action::Write { cmd: 0xC000_2002, val: 1 };

fn reply(first: u32, second: u32) -> Reply {
    Reply { first, second, returned: 0 }
}

fn bus() -> SpiBus<(), ()> {
    SpiBus::new((), ())
}

fn run_write(bus: &mut SpiBus<(), ()>, mut op: RegWrite) -> Vec<Action> {
    let mut actions = Vec::new();
    while let Some(action) = op.action() {
        actions.push(action);
        op.resume(bus);
    }
    actions
}

fn run_read(
    bus: &mut SpiBus<(), ()>,
    op: &mut RegRead,
    replies: &[Reply],
) -> (Vec<Action>, Vec<Notice>) {
    let (mut actions, mut notices) = (Vec::new(), Vec::new());
    let mut replies = replies.iter();
    while let Some(action) = op.action() {
        actions.push(action);
        let r = *replies.next().unwrap();
        assert!(op.can_resume(bus, r));
        notices.extend(op.resume(bus, r));
    }
    assert!(replies.next().is_none());
    (actions, notices)
}

#[test]
fn new_bus() {
    let mut bus = SpiBus::new(1u8, 2u16);
    assert_eq!((bus.pwr, bus.spi), (1, 2));
    assert_eq!(bus.status(), 0);
    assert_eq!(bus.backplane_window_cached(), 0xAAAA_AAAA);
    assert_eq!(bus.ops().count(), 0);
    assert_eq!(bus.take_cached_status(), 0);
}

#[test]
fn bus_register_takes_one_exchange() {
    let mut bus = bus();
    let mut op = bus.read32(FUNC_BUS, REG_BUS_TEST_RO);
    let (actions, notices) = run_read(&mut bus, &mut op, &[reply(0xFEED_BEAD, 7)]);
    assert_eq!(actions, vec![Action::Read { cmd: 0x4000_A004, words: 1 }]);
    assert_eq!(notices, vec![]);
    assert_eq!(op.value(), Some(0xFEED_BEAD));
    assert_eq!(bus.ops().get(0), (0x4000_A004, 0));
    assert_eq!(bus.status(), 0);
}

#[test]
fn values_are_cut_to_the_register() {
    let mut bus = bus();
    let mut op = bus.read8(FUNC_BUS, 0);
    assert_eq!((op.value(), op.value8(), op.value16()), (None, None, None));
    run_read(&mut bus, &mut op, &[reply(0x1122_3344, 0)]);
    assert_eq!(op.value(), Some(0x1122_3344));
    assert_eq!(op.value8(), Some(0x44));
    assert_eq!(op.value16(), Some(0x3344));
    assert_eq!(bus.read16(FUNC_BUS, 4).len, 2);
}

#[test]
fn first_backplane_access_writes_all_window_registers() {
    let mut bus = bus();
    let op = bus.bp_write32(0x1800_8004, 0xCAFE_F00D);
    let actions = run_write(&mut bus, op);
    assert_eq!(
        actions,
        vec![
            Action::Write { cmd: 0xD800_6001, val: 0x18 },
            Action::Write { cmd: 0xD800_5801, val: 0x00 },
            Action::Write { cmd: 0xD800_5001, val: 0x80 },
            Action::Write { cmd: 0xD000_0000 | 0x8004 << 11 | 4, val: 0xCAFE_F00D },
        ]
    );
    assert_eq!(bus.backplane_window_cached(), 0x1800_8000);
    assert_eq!(bus.ops().count(), 4);
    assert_eq!(bus.ops().get(0), (0xD800_6001, 0));
}

#[test]
fn window_registers_that_are_right_are_left_alone() {
    let mut bus = bus();
    let op = bus.bp_write8(0x1800_8004, 1);
    run_write(&mut bus, op);
    let op = bus.bp_write8(0x1800_8010, 2);
    assert_eq!(run_write(&mut bus, op), vec![Action::Write { cmd: 0xD000_0000 | 0x10 << 11 | 1, val: 2 }]);
    let op = bus.bp_write16(0x1800_0010, 3);
    assert_eq!(
        run_write(&mut bus, op),
        vec![
            Action::Write { cmd: 0xD800_5001, val: 0 },
            Action::Write { cmd: 0xD000_0000 | 0x10 << 11 | 2, val: 3 },
        ]
    );
    bus.backplane_window_invalidate();
    assert_eq!(bus.backplane_window_cached(), 0xAAAA_AAAA);
    let op = bus.bp_write8(0x1800_0010, 4);
    assert_eq!(run_write(&mut bus, op).len(), 4);
}

#[test]
fn window_byte_like_the_unknown_window_is_written() {
    let mut fresh = bus();
    let mut invalidated = bus();
    let op = invalidated.bp_write8(0x18AA_0000, 1);
    run_write(&mut invalidated, op);
    invalidated.backplane_window_invalidate();
    for bus in [&mut fresh, &mut invalidated] {
        let op = bus.bp_write8(0x18AA_0000, 1);
        assert_eq!(
            run_write(bus, op),
            vec![
                Action::Write { cmd: 0xD800_6001, val: 0x18 },
                Action::Write { cmd: 0xD800_5801, val: 0xAA },
                Action::Write { cmd: 0xD800_5001, val: 0x00 },
                Action::Write { cmd: 0xD000_0001, val: 1 },
            ]
        );
        assert_eq!(bus.backplane_window_cached(), 0x18AA_0000);
    }
}

#[test]
fn window_closest_to_the_unknown_window_is_written() {
    let mut bus = bus();
    let op = bus.bp_write8(0xAAAA_AAAA, 1);
    let actions = run_write(&mut bus, op);
    assert_eq!(actions.len(), 4);
    assert_eq!(actions[0], Action::Write { cmd: 0xD800_6001, val: 0xAA });
    assert_eq!(actions[1], Action::Write { cmd: 0xD800_5801, val: 0xAA });
    assert_eq!(actions[2], Action::Write { cmd: 0xD800_5001, val: 0x80 });
    assert_eq!(bus.backplane_window_cached(), 0xAAAA_8000);
}

fn read_at_window(bus: &mut SpiBus<(), ()>) -> RegRead {
    let op = bus.bp_write8(0, 0);
    run_write(bus, op);
    bus.bp_read32(4)
}

#[test]
fn backplane_value_is_the_second_word() {
    let mut bus = bus();
    let mut op = read_at_window(&mut bus);
    let cmd = 0x5000_0000 | 0x8004 << 11 | 4;
    let (actions, notices) = run_read(&mut bus, &mut op, &[reply(9, 0x1234), reply(0x100, 0)]);
    assert_eq!(actions, vec![Action::Read { cmd, words: 2 }, STATUS]);
    assert_eq!(notices, vec![]);
    assert_eq!(op.value(), Some(0x1234));
    assert_eq!(bus.status(), 0x100);
    assert_eq!(bus.ops().get(4), (cmd, 0x100));
}

#[test]
fn refused_read_is_issued_again() {
    let mut bus = bus();
    let mut op = read_at_window(&mut bus);
    let cmd = 0x5000_0000 | 0x8004 << 11 | 4;
    let read = Action::Read { cmd, words: 2 };
    let (actions, notices) = run_read(
        &mut bus,
        &mut op,
        &[
            reply(0, 0xBAD0),
            reply(1, 0),
            reply(0, 0),
            reply(0, 0xBAD1),
            reply(1, 0),
            reply(0, 0),
            reply(0, 0x600D),
            reply(0, 0),
        ],
    );
    assert_eq!(actions, vec![read, STATUS, CLEAR, read, STATUS, CLEAR, read, STATUS]);
    assert_eq!(op.value(), Some(0x600D));
    assert_eq!(notices, vec![Notice::Answered { func: FUNC_BACKPLANE, attempt: 2, count: 1 }]);
    // The first refusal froze the log.
    assert_eq!(bus.ops().count(), 5);
    assert_eq!(bus.ops().get(4), (cmd, 1));
}

#[test]
fn read_is_given_up_after_the_last_attempt() {
    let mut bus = bus();
    let mut op = read_at_window(&mut bus);
    let mut replies = Vec::new();
    for i in 0..4 {
        replies.push(reply(0, i));
        replies.push(reply(0x101, 0));
        if i < 3 {
            replies.push(reply(0, 0));
        }
    }
    let (actions, notices) = run_read(&mut bus, &mut op, &replies);
    assert_eq!(actions.len(), 11);
    assert_eq!(op.value(), Some(3));
    assert_eq!(notices, vec![Notice::Unanswered { func: FUNC_BACKPLANE, status: 0x101, count: 1 }]);
}

#[test]
fn decisions() {
    let mut bus = bus();
    bus.set_status(1);
    assert_eq!(bus.reissue(FUNC_BUS, 0), (Decision::Trust, None));
    assert_eq!(bus.reissue(2, 0), (Decision::Trust, None));
    assert_eq!(bus.reissue(FUNC_BACKPLANE, 2), (Decision::Retry, None));
    assert_eq!(bus.reissue(FUNC_BACKPLANE, 3).0, Decision::GiveUp);
    bus.set_status(0xFFFF_FFFE);
    assert_eq!(bus.reissue(FUNC_BACKPLANE, 0), (Decision::Trust, None));
}

#[test]
fn reports_are_throttled() {
    let mut bus = bus();
    let mut counts = Vec::new();
    bus.set_status(0);
    for _ in 0..2048 {
        if let (_, Some(Notice::Answered { count, .. })) = bus.reissue(FUNC_BACKPLANE, 1) {
            counts.push(count);
        }
    }
    assert_eq!(counts, vec![1, 2, 3, 4, 5, 6, 7, 8, 1024, 2048]);
}

#[test]
fn races_are_counted() {
    let mut bus = bus();
    assert!(bus.can_account());
    assert_eq!(bus.account_race(0, 0), None);
    assert_eq!(bus.account_race(0x100, 0x100), None);
    assert_eq!(bus.account_race(0x100, 0), None);
    assert_eq!(bus.account_race(0, 0x100), Some(Tally { reads: 4, races: 1, losses: 0 }));
    assert_eq!(bus.account_race(0, 0x101), Some(Tally { reads: 5, races: 2, losses: 1 }));
    assert_eq!(bus.account_race(0, 1), None);
    for _ in 0..61 {
        bus.account_race(0, 0x100);
    }
    assert_eq!(bus.account_race(0, 0x101), Some(Tally { reads: 68, races: 64, losses: 2 }));
    assert_eq!(bus.account_race(0, 0x100), None);
}
