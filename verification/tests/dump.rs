use cyw43_spi::bus::SpiBus;
use cyw43_spi::dump::DumpItem;
use cyw43_spi::frame::Command;

fn dump(bus: &SpiBus<(), ()>) -> Vec<DumpItem> {
    let mut items = Vec::new();
    let mut op = bus.dump_bus_ops();
    while let Some(item) = op.next(bus) {
        items.push(item);
    }
    assert_eq!(op.next(bus), None);
    items
}

#[test]
fn empty_log() {
    let bus = SpiBus::new((), ());
    assert_eq!(dump(&bus), vec![DumpItem::Empty]);
}

#[test]
fn lines_show_the_command_and_the_status() {
    let mut bus = SpiBus::new((), ());
    bus.record(0xD800_5001, 0);
    bus.record(0x4000_A004, 0x100);
    assert_eq!(
        dump(&bus),
        vec![
            DumpItem::Header { count: 2 },
            DumpItem::Line {
                index: 0,
                command: Command { write: true, func: 1, addr: 0x1000A, len: 1 },
                status: None,
            },
            DumpItem::Line {
                index: 1,
                command: Command { write: false, func: 0, addr: 0x14, len: 4 },
                status: Some(0x100),
            },
        ]
    );
}

#[test]
fn every_fourth_line_is_followed_by_a_pause() {
    let mut bus = SpiBus::new((), ());
    for i in 0..50 {
        bus.record(i, 0);
    }
    let items = dump(&bus);
    assert_eq!(items.len(), 1 + 32 + 8);
    assert_eq!(items[5], DumpItem::Pause { millis: 2 });
    assert_eq!(items[10], DumpItem::Pause { millis: 2 });
    assert_eq!(items[40], DumpItem::Pause { millis: 2 });
    let lengths: Vec<u32> = items
        .iter()
        .filter_map(|item| match item {
            DumpItem::Line { command, .. } => Some(command.len),
            _ => None,
        })
        .collect();
    assert_eq!(lengths, (18..50).collect::<Vec<u32>>());
}
