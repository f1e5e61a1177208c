use cyw43_spi::buffer::{slice32_mut, slice32_ref, WordBuf};
use cyw43_spi::bulk::{block_fits, BpRead, BpWrite};
use cyw43_spi::bus::SpiBus;
use cyw43_spi::frame::Command;
use cyw43_spi::io::{Action, Notice, Reply, Tally};

/// A device with window registers and memory behind them, which refuses some reads.
struct Device {
    window: u32,
    memory: Vec<u8>,
    latched: bool,
    refuse: Vec<bool>,
    reads: usize,
    status: u32,
    actions: Vec<Action>,
}

impl Device {
    fn new(refuse: &[bool]) -> Device {
        Device {
            window: 0,
            memory: vec![0; 0x20000],
            latched: false,
            refuse: refuse.to_vec(),
            reads: 0,
            status: 0,
            actions: Vec::new(),
        }
    }

    fn cell(&self, c: Command) -> usize {
        (self.window + c.addr % 0x8000) as usize
    }

    fn perform(&mut self, action: Action, buf: &mut WordBuf) -> Reply {
        self.actions.push(action);
        let mut reply = Reply { first: 0, second: 0, returned: 0 };
        match action {
            Action::Write { cmd, val } => {
                let c = Command::of_word(cmd);
                assert!(c.write);
                match (c.func, c.addr) {
                    (1, 0x1000A) => self.window = self.window & !0xFF00 | val << 8,
                    (1, 0x1000B) => self.window = self.window & !0xFF_0000 | val << 16,
                    (1, 0x1000C) => self.window = self.window & !0xFF00_0000 | val << 24,
                    (0, 4) => self.latched = self.latched && val & 1 == 0,
                    _ => panic!("unexpected write"),
                }
            }
            Action::Read { cmd, words } => {
                assert_eq!((cmd, words), (0x4000_4004, 1));
                reply.first = self.status | self.latched as u32;
            }
            Action::WriteBuf { words } => {
                let c = Command::of_word(slice32_ref(buf)[0]);
                assert!(c.write && c.func == 1 && c.addr & 0x8000 != 0);
                assert_eq!(words, (c.len as usize).div_ceil(4) + 1);
                let at = self.cell(c);
                for i in 0..c.len as usize {
                    self.memory[at + i] = buf.get(4 + i);
                }
            }
            Action::ReadBuf { cmd, words } => {
                let c = Command::of_word(cmd);
                assert!(!c.write && c.func == 1 && c.addr & 0x8000 != 0);
                assert_eq!(words, (c.len as usize).div_ceil(4) + 1);
                let refused = self.refuse.get(self.reads).copied().unwrap_or(false);
                self.reads += 1;
                if refused {
                    self.latched = true;
                    for word in slice32_mut(buf)[..words].iter_mut() {
                        *word = 0xBAAD_F00D;
                    }
                } else {
                    let at = self.cell(c);
                    let bytes = self.memory[at..at + c.len as usize].to_vec();
                    buf.copy_in(4, &bytes, 0, bytes.len());
                }
            }
            _ => panic!("unexpected action"),
        }
        reply
    }
}

fn run_write(bus: &mut SpiBus<(), ()>, device: &mut Device, addr: u32, data: &[u8]) {
    let mut buf = WordBuf::from_bytes(&[0x55; 68]);
    let mut op: BpWrite = bus.bp_write(addr, data, &mut buf);
    while let Some(action) = op.action() {
        assert!(op.fits_in(buf.len()));
        device.perform(action, &mut buf);
        op.resume(bus, data, &mut buf);
    }
}

fn run_read(
    bus: &mut SpiBus<(), ()>,
    device: &mut Device,
    addr: u32,
    len: usize,
) -> (Vec<u8>, Vec<Notice>, Vec<Tally>) {
    let mut buf = WordBuf::from_bytes(&[0; 68]);
    let mut data = vec![0u8; len];
    let (mut notices, mut tallies) = (Vec::new(), Vec::new());
    let mut op: BpRead = bus.bp_read(addr, len);
    while let Some(action) = op.action() {
        let reply = device.perform(action, &mut buf);
        assert!(op.fits_in(buf.len()) && op.can_resume(bus, reply));
        let (tally, notice) = op.resume(bus, reply, &buf, &mut data);
        tallies.extend(tally);
        notices.extend(notice);
    }
    (data, notices, tallies)
}

fn pattern(len: usize) -> Vec<u8> {
    (0..len).map(|i| (i * 7 + 3) as u8).collect()
}

#[test]
fn read_gives_back_write() {
    for (addr, len) in [(0u32, 1usize), (0x7FF8, 100), (0x1_0000, 64), (0x7FFC, 4), (0x100, 200)] {
        let mut bus = SpiBus::new((), ());
        let mut device = Device::new(&[]);
        let data = pattern(len);
        run_write(&mut bus, &mut device, addr, &data);
        assert_eq!(device.memory[addr as usize..addr as usize + len], data[..]);
        assert!(device.memory[addr as usize + len..].iter().all(|b| *b == 0));
        let (read, notices, _) = run_read(&mut bus, &mut device, addr, len);
        assert_eq!(read, data);
        assert_eq!(notices, vec![]);
    }
}

#[test]
fn refused_transfers_are_read_again() {
    let mut bus = SpiBus::new((), ());
    let mut device = Device::new(&[true, false, false, true, true, true, false]);
    let data = pattern(192);
    run_write(&mut bus, &mut device, 0x400, &data);
    let (read, notices, _) = run_read(&mut bus, &mut device, 0x400, 192);
    assert_eq!(read, data);
    assert_eq!(
        notices,
        vec![
            Notice::Answered { func: 1, attempt: 1, count: 1 },
            Notice::Answered { func: 1, attempt: 3, count: 2 },
        ]
    );
    assert_eq!(device.reads, 7);
}

#[test]
fn transfer_that_stays_refused_is_given_up() {
    let mut bus = SpiBus::new((), ());
    let mut device = Device::new(&[true, true, true, true]);
    let data = pattern(68);
    run_write(&mut bus, &mut device, 0, &data);
    let (read, notices, _) = run_read(&mut bus, &mut device, 0, 68);
    assert_eq!(read[..4], [0x0D, 0xF0, 0xAD, 0xBA]);
    assert_eq!(read[64..], data[64..]);
    // The refusal was still latched at the second transfer, which is why that is read twice.
    assert_eq!(device.reads, 6);
    assert_eq!(
        notices,
        vec![
            Notice::Unanswered { func: 1, status: 1, count: 1 },
            Notice::Answered { func: 1, attempt: 1, count: 1 },
        ]
    );
}

#[test]
fn transfers_do_not_cross_the_window() {
    let mut bus = SpiBus::new((), ());
    let mut device = Device::new(&[]);
    run_read(&mut bus, &mut device, 0x7FE0, 100);
    let transfers: Vec<(u32, u32)> = device
        .actions
        .iter()
        .filter_map(|a| match a {
            Action::ReadBuf { cmd, .. } => {
                let c = Command::of_word(*cmd);
                Some((c.addr, c.len))
            }
            _ => None,
        })
        .collect();
    assert_eq!(transfers, vec![(0xFFE0, 32), (0x8000, 64), (0x8040, 4)]);
    assert_eq!(bus.backplane_window_cached(), 0x8000);
}

#[test]
fn nothing_to_move() {
    let mut bus = SpiBus::new((), ());
    let op = bus.bp_read(0x1234_5678, 0);
    assert_eq!(op.action(), None);
    let mut buf = WordBuf::from_bytes(&[]);
    let op = bus.bp_write(0x1234_5678, &[], &mut buf);
    assert_eq!(op.action(), None);
    assert_eq!(bus.backplane_window_cached(), 0xAAAA_AAAA);
    assert!(op.fits_in(0));
}

#[test]
fn write_action_and_buffer() {
    let mut bus = SpiBus::new((), ());
    let mut buf = WordBuf::from_bytes(&[0xEE; 12]);
    let mut op = bus.bp_write(0x1800_0000, &[1, 2, 3, 4, 5], &mut buf);
    // The data is in the buffer before the window is reached.
    assert_eq!(op.action(), Some(Action::Write { cmd: 0xD800_6001, val: 0x18 }));
    assert_eq!(slice32_ref(&buf).to_vec(), vec![0xEEEE_EEEE, 0x0403_0201, 0xEEEE_EE05]);
    for _ in 0..3 {
        op.resume(&mut bus, &[1, 2, 3, 4, 5], &mut buf);
    }
    assert_eq!(op.action(), Some(Action::WriteBuf { words: 3 }));
    assert_eq!(slice32_ref(&buf)[0], 0xD000_0000 | 0x8000 << 11 | 5);
    op.resume(&mut bus, &[1, 2, 3, 4, 5], &mut buf);
    assert_eq!(op.action(), None);
    assert_eq!(bus.ops().get(3), (0xD400_0005, 0));
}

#[test]
fn buffer_has_to_hold_a_transfer() {
    assert!(block_fits(0, 0, 0));
    assert!(block_fits(0, 64, 68));
    assert!(block_fits(0, 1000, 68));
    assert!(!block_fits(0, 64, 67));
    assert!(block_fits(0x7FFC, 64, 8));
}

#[test]
fn arriving_packets_are_tallied() {
    let mut bus = SpiBus::new((), ());
    let mut device = Device::new(&[]);
    device.status = 0x100;
    let (_, _, tallies) = run_read(&mut bus, &mut device, 0, 8);
    assert_eq!(tallies, vec![Tally { reads: 1, races: 1, losses: 0 }]);
    // The packet is still there, so it does not arrive again.
    let (_, _, tallies) = run_read(&mut bus, &mut device, 0, 8);
    assert_eq!(tallies, vec![]);
    device.status = 0;
    run_read(&mut bus, &mut device, 0, 8);
    device.status = 0x100;
    device.refuse = vec![false, false, false, true];
    let (_, _, tallies) = run_read(&mut bus, &mut device, 0, 8);
    assert_eq!(tallies, vec![Tally { reads: 4, races: 2, losses: 1 }]);
}
