use cyw43_spi::bus::SpiBus;
use cyw43_spi::frame::swap16;
use cyw43_spi::io::{Action, Error, Reply};
use cyw43_spi::setup::{Init, BUS_CONFIG};

fn reply(first: u32) -> Reply {
    Reply { first, second: 0, returned: 0x77 }
}

fn run(bus: &mut SpiBus<(), ()>, op: &mut Init, replies: &[u32]) -> Vec<Action> {
    let mut actions = Vec::new();
    let mut replies = replies.iter();
    while let Some(action) = op.action() {
        assert_eq!(op.result(), None);
        actions.push(action);
        op.resume(bus, reply(*replies.next().unwrap()));
    }
    assert!(replies.next().is_none());
    actions
}

fn good() -> Vec<u32> {
    let mut replies = vec![0; 15];
    replies[4] = swap16(0xFEED_BEAD);
    replies[6] = swap16(0x1234_5678);
    replies[10] = 0xFEED_BEAD;
    replies[11] = 0x1234_5678;
    replies
}

#[test]
fn configuration_value() {
    assert_eq!(BUS_CONFIG, 0x0002_04B1);
}

#[test]
fn bring_up() {
    let mut bus = SpiBus::new((), ());
    let mut op = bus.init(false);
    let actions = run(&mut bus, &mut op, &good());
    assert_eq!(
        actions,
        vec![
            Action::Power { high: false },
            Action::Sleep { millis: 20 },
            Action::Power { high: true },
            Action::Sleep { millis: 250 },
            Action::Read { cmd: 0xA004_4000, words: 1 },
            Action::Write { cmd: 0xC004_C000, val: 0x5678_1234 },
            Action::Read { cmd: 0xC004_4000, words: 1 },
            Action::Read { cmd: 0x0004_4000, words: 1 },
            Action::Write { cmd: 0x0004_C000, val: 0x04B1_0002 },
            Action::Read { cmd: 0x4000_0001, words: 1 },
            Action::Read { cmd: 0x4000_A004, words: 1 },
            Action::Read { cmd: 0x4000_C004, words: 1 },
            Action::Write { cmd: 0xC000_E801, val: 4 },
            Action::Write { cmd: 0xC000_2001, val: 0x99 },
            Action::Write { cmd: 0xC000_3002, val: 0xBE },
        ]
    );
    assert_eq!(op.result(), Some(Ok(())));
    assert_eq!(bus.ops().count(), 0);
    assert_eq!(bus.status(), 0x77);
}

#[test]
fn bring_up_with_bluetooth() {
    let mut bus = SpiBus::new((), ());
    let mut op = bus.init(true);
    let actions = run(&mut bus, &mut op, &good());
    assert_eq!(actions[14], Action::Write { cmd: 0xC000_3002, val: 0x20BE });
}

#[test]
fn probe_is_repeated() {
    let mut bus = SpiBus::new((), ());
    let mut op = bus.init(false);
    let mut replies = vec![0, 0, 0, 0, 1, 0xFEED_BEAD, 0xFFFF_FFFF];
    replies.extend_from_slice(&good()[4..]);
    let actions = run(&mut bus, &mut op, &replies);
    assert_eq!(actions.len(), 18);
    assert_eq!(op.result(), Some(Ok(())));
}

#[test]
fn failed_checks_end_the_bring_up() {
    for (at, performed) in [(6usize, 7usize), (10, 11), (11, 12)] {
        let mut bus = SpiBus::new((), ());
        let mut op = bus.init(false);
        let mut replies = good()[..performed].to_vec();
        replies[at] ^= 1;
        let actions = run(&mut bus, &mut op, &replies);
        assert_eq!(actions.len(), performed);
        assert_eq!(op.result(), Some(Err(Error)));
    }
}

#[test]
fn early_transfers_are_recorded_with_their_status() {
    let mut bus = SpiBus::new((), ());
    let mut op = bus.init(false);
    for r in [0, 0, 0, 0, 5] {
        op.resume(&mut bus, Reply { first: r, second: 0, returned: 0x100 });
    }
    assert_eq!(bus.ops().count(), 1);
    assert_eq!(bus.ops().get(0), (0xA004_4000, 0x100));
    assert_eq!(bus.status(), 0x100);
    op.resume(&mut bus, Reply { first: swap16(0xFEED_BEAD), second: 0, returned: 0 });
    op.resume(&mut bus, Reply { first: 0, second: 0, returned: 0x200 });
    // A swapped write is recorded as the plain command word.
    assert_eq!(bus.ops().get(2), (0xC000_C004, 0x200));
}

#[test]
fn reconfiguration() {
    let mut bus = SpiBus::new((), ());
    let mut op = bus.bus_reconfigure();
    let mut actions = Vec::new();
    while let Some(action) = op.action() {
        actions.push(action);
        op.resume(&mut bus, Reply { first: 0, second: 0, returned: 0x100 });
    }
    assert_eq!(
        actions,
        vec![
            Action::Write { cmd: 0x0004_C000, val: 0x04B1_0002 },
            Action::Write { cmd: 0xC000_E801, val: 4 },
            Action::Write { cmd: 0xC000_2001, val: 0x99 },
        ]
    );
    assert_eq!(bus.ops().count(), 3);
    assert_eq!(bus.ops().get(0), (0xC000_0004, 0x100));
    assert_eq!(bus.ops().get(1), (0xC000_E801, 0));
}

#[test]
fn selftest() {
    let mut bus = SpiBus::new((), ());
    let mut op = bus.bus_selftest();
    assert_eq!(op.action(), Some(Action::Read { cmd: 0x4000_A004, words: 1 }));
    op.resume(&mut bus, reply(0xFEED_BEAD));
    assert_eq!(op.action(), Some(Action::Read { cmd: 0x4000_C004, words: 1 }));
    assert_eq!(op.result(), None);
    op.resume(&mut bus, reply(3));
    assert_eq!(op.action(), None);
    assert_eq!(op.result(), Some((0xFEED_BEAD, 3)));
    assert_eq!(bus.ops().count(), 2);
}
