use cyw43_spi::buffer::{slice32_ref, WordBuf};
use cyw43_spi::bus::SpiBus;
use cyw43_spi::io::{Action, Error, Notice, Reply};

const STATUS: Action = Action::Read { cmd: 0x4000_4004, words: 1 };

fn reply(first: u32) -> Reply {
    Reply { first, second: 0, returned: 0 }
}

#[test]
fn packet_is_read() {
    let mut bus = SpiBus::new((), ());
    let buf = WordBuf::from_bytes(&[0; 6]);
    let mut op = bus.wlan_read(&buf);
    assert_eq!(op.action(), Some(Action::ReadBuf { cmd: 0x6000_0006, words: 2 }));
    assert_eq!(op.resume(&mut bus, reply(0)), None);
    assert_eq!(op.action(), Some(STATUS));
    assert_eq!(op.result(), None);
    assert_eq!(op.resume(&mut bus, reply(0x100)), None);
    assert_eq!(op.action(), None);
    assert_eq!(op.result(), Some(Ok(())));
    assert_eq!(bus.status(), 0x100);
    assert_eq!(bus.ops().count(), 1);
    assert_eq!(bus.ops().get(0), (0x6000_0006, 0x100));
}

#[test]
fn unserved_packet_is_dropped() {
    let mut bus = SpiBus::new((), ());
    let buf = WordBuf::from_bytes(&[0; 8]);
    let mut op = bus.wlan_read(&buf);
    op.resume(&mut bus, reply(0));
    op.resume(&mut bus, reply(1));
    assert_eq!(op.action(), Some(Action::Write { cmd: 0xD800_6801, val: 1 }));
    assert_eq!(op.resume(&mut bus, reply(0)), None);
    assert_eq!(op.action(), Some(Action::Sleep { millis: 1 }));
    assert!(op.can_resume(&bus));
    assert_eq!(op.resume(&mut bus, reply(0)), Some(Notice::Dropped { count: 1 }));
    assert_eq!(op.action(), None);
    assert_eq!(op.result(), Some(Err(Error)));
    // The log froze on the refusal.
    assert_eq!(bus.ops().count(), 1);
    assert_eq!(bus.ops().get(0), (0x6000_0008, 1));
}

#[test]
fn packet_is_written() {
    let mut bus = SpiBus::new((), ());
    let mut buf = WordBuf::from_bytes(&[9, 9, 9, 9, 1, 2, 3, 4, 5]);
    let mut op = bus.wlan_write(&mut buf);
    assert_eq!(op.action(), Some(Action::WriteBuf { words: 3 }));
    assert_eq!(slice32_ref(&buf).to_vec(), vec![0xE000_0005, 0x0403_0201, 5]);
    assert_eq!(op.result(), None);
    op.resume(&mut bus);
    assert_eq!(op.action(), None);
    assert_eq!(op.result(), Some(Ok(())));
    assert_eq!(bus.ops().get(0), (0xE000_0005, 0));
}

#[test]
fn empty_packet_is_written() {
    let bus: SpiBus<(), ()> = SpiBus::new((), ());
    let mut buf = WordBuf::from_bytes(&[0; 4]);
    let op = bus.wlan_write(&mut buf);
    assert_eq!(op.action(), Some(Action::WriteBuf { words: 1 }));
    assert_eq!(slice32_ref(&buf).to_vec(), vec![0xE000_0000]);
}
