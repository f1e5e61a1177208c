//! Bringing the bus up, checking it and configuring it again.

use vstd::prelude::*;

use crate::bus;
use crate::bus::{writen, BusState, SpiBus};
use crate::consts::{
    FEEDBEAD, FUNC_BUS, HIGH_SPEED, INC_ADDR, INTERRUPT_POLARITY_HIGH, INTR_WITH_STATUS,
    IRQ_COMMAND_ERROR, IRQ_DATA_ERROR, IRQ_DATA_UNAVAILABLE, IRQ_F1_INTR, IRQ_F1_OVERFLOW,
    IRQ_F2_F3_FIFO_RD_UNDERFLOW, IRQ_F2_F3_FIFO_WR_OVERFLOW, IRQ_F2_PACKET_AVAILABLE, READ,
    REG_BUS_CTRL, REG_BUS_INTERRUPT, REG_BUS_INTERRUPT_ENABLE, REG_BUS_RESPONSE_DELAY,
    REG_BUS_STATUS_ENABLE, REG_BUS_TEST_RO, REG_BUS_TEST_RW, SPI_RESP_DELAY_F1, STATUS_ENABLE,
    TEST_PATTERN, WAKE_UP, WHD_BUS_SPI_BACKPLANE_READ_PADD_SIZE, WORD_LENGTH_32, WRITE,
};
use crate::frame;
use crate::frame::{cmd_word, swap16};
use crate::io::{Action, Error, Reply};
use crate::oplog::{LogState, UNINSTRUMENTED};
use crate::wire;

verus! {

/// How long the power is off.
pub const POWER_OFF_MILLIS: u64 = 20;

/// How long the device takes to start.
pub const POWER_ON_MILLIS: u64 = 250;

/// The bus configuration: words of 32 bits, little endian, a response delay of four bytes.
/// `STATUS_ENABLE` is deliberately absent: the device would append a status word to every
/// transfer. `INTR_WITH_STATUS` only means anything if status is sent, so it is inert.
pub const BUS_CONFIG: u32 = WORD_LENGTH_32 | HIGH_SPEED | INTERRUPT_POLARITY_HIGH | WAKE_UP | 0x4
    << (8 * REG_BUS_RESPONSE_DELAY) | INTR_WITH_STATUS << (8 * REG_BUS_STATUS_ENABLE);

/// The interrupts that report an error.
pub const ERROR_IRQS: u16 = IRQ_DATA_UNAVAILABLE | IRQ_COMMAND_ERROR | IRQ_DATA_ERROR
    | IRQ_F1_OVERFLOW;

/// The interrupts that are enabled whether or not Bluetooth is.
pub const WLAN_IRQS: u16 = IRQ_F2_F3_FIFO_RD_UNDERFLOW | IRQ_F2_F3_FIFO_WR_OVERFLOW
    | IRQ_COMMAND_ERROR | IRQ_DATA_ERROR | IRQ_F2_PACKET_AVAILABLE | IRQ_F1_OVERFLOW;

/// The interrupts that are enabled.
pub open spec fn enabled_irqs(bluetooth: bool) -> u16 {
    if bluetooth {
        WLAN_IRQS | IRQ_F1_INTR
    } else {
        WLAN_IRQS
    }
}

/// The configuration leaves the device's own status words off, sets words of 32 bits and a
/// response delay of four bytes.
pub proof fn law_bus_config()
    ensures
        BUS_CONFIG & (STATUS_ENABLE << (8 * REG_BUS_STATUS_ENABLE) as u32) == 0,
        BUS_CONFIG & WORD_LENGTH_32 != 0,
        (BUS_CONFIG >> 8) & 0xFF == WHD_BUS_SPI_BACKPLANE_READ_PADD_SIZE,
        BUS_CONFIG == 0x0002_04B1,
{
    assert(BUS_CONFIG == 0x0002_04B1) by (bit_vector);
    assert(0x0002_04B1u32 & (0x01u32 << 16u32) == 0 && 0x0002_04B1u32 & 0x1 != 0 && (0x0002_04B1u32
        >> 8) & 0xFF == 4) by (bit_vector);
}

/// The read of a register of the bus function.
pub open spec fn bus_read(addr: u32, len: u32) -> Action {
    Action::Read { cmd: frame::command(READ, INC_ADDR, FUNC_BUS, addr, len), words: 1 }
}

/// The write of a register of the bus function.
pub open spec fn bus_write(addr: u32, val: u32, len: u32) -> Action {
    bus::register_write(FUNC_BUS, addr, val, len)
}

/// The read of a register while the device still takes words of 16 bits.
pub open spec fn swapped_read(func: u8, addr: u32) -> Action {
    Action::Read {
        cmd: frame::swapped(frame::command(READ, INC_ADDR, func, addr, 4)),
        words: 1,
    }
}

/// The write of a register while the device still takes words of 16 bits.
pub open spec fn swapped_write(func: u8, addr: u32, val: u32) -> Action {
    Action::Write {
        cmd: frame::swapped(frame::command(WRITE, INC_ADDR, func, addr, 4)),
        val: frame::swapped(val),
    }
}

/// The state of the bus after such a read: the status word that the transfer returned is noted.
pub open spec fn after_swapped_read(state: BusState, func: u8, addr: u32, reply: Reply) -> BusState {
    state.with_status(reply.returned).logged(
        frame::swapped(frame::command(READ, INC_ADDR, func, addr, 4)),
        reply.returned,
    )
}

/// The state of the bus after such a write.
pub open spec fn after_swapped_write(
    state: BusState,
    func: u8,
    addr: u32,
    reply: Reply,
) -> BusState {
    state.with_status(reply.returned).logged(
        frame::command(WRITE, INC_ADDR, func, addr, 4),
        reply.returned,
    )
}

/// The state of the bus after a register of the bus function was read.
pub open spec fn after_bus_read(state: BusState, addr: u32, len: u32) -> BusState {
    state.logged(frame::command(READ, INC_ADDR, FUNC_BUS, addr, len), UNINSTRUMENTED)
}

/// The state of the bus after a register of the bus function was written.
pub open spec fn after_bus_write(state: BusState, addr: u32, len: u32) -> BusState {
    state.logged(frame::command(WRITE, INC_ADDR, FUNC_BUS, addr, len), UNINSTRUMENTED)
}

/// The read of a register while the device still takes words of 16 bits.
pub fn read32_swapped(func: u8, addr: u32) -> (r: Action)
    ensures
        r == swapped_read(func, addr),
{
    Action::Read { cmd: swap16(cmd_word(READ, INC_ADDR, func, addr, 4)), words: 1 }
}

/// The write of a register while the device still takes words of 16 bits.
pub fn write32_swapped(func: u8, addr: u32, val: u32) -> (r: Action)
    ensures
        r == swapped_write(func, addr, val),
{
    Action::Write { cmd: swap16(cmd_word(WRITE, INC_ADDR, func, addr, 4)), val: swap16(val) }
}

/// The read of a register of the bus function.
fn bus_readn(addr: u32, len: u32) -> (r: Action)
    ensures
        r == bus_read(addr, len),
{
    Action::Read { cmd: cmd_word(READ, INC_ADDR, FUNC_BUS, addr, len), words: 1 }
}

/// How far the bring-up has come; each stage but the last waits for a reply.
#[derive(Clone, Copy, PartialEq, Eq, Structural, Debug)]
pub enum InitStage {
    PowerOff,
    PowerOffWait,
    PowerOn,
    PowerOnWait,
    /// The fixed test register is being read until it reads as it should.
    Probe,
    WriteTest,
    ReadTest,
    ReadCtrl,
    WriteCtrl,
    ReadBackCtrl,
    CheckFixed,
    CheckTest,
    SetDelay,
    ClearIrqs,
    EnableIrqs,
    Done { up: bool },
}

/// A bring-up under way.
#[derive(Clone, Copy, PartialEq, Eq, Structural, Debug)]
pub struct Init {
    pub bluetooth: bool,
    pub stage: InitStage,
}

/// What the bring-up does, in order.
pub open spec fn init_script(bluetooth: bool) -> Seq<Action> {
    seq![
        Action::Power { high: false },
        Action::Sleep { millis: POWER_OFF_MILLIS },
        Action::Power { high: true },
        Action::Sleep { millis: POWER_ON_MILLIS },
        swapped_read(FUNC_BUS, REG_BUS_TEST_RO),
        swapped_write(FUNC_BUS, REG_BUS_TEST_RW, TEST_PATTERN),
        swapped_read(FUNC_BUS, REG_BUS_TEST_RW),
        swapped_read(FUNC_BUS, REG_BUS_CTRL),
        swapped_write(FUNC_BUS, REG_BUS_CTRL, BUS_CONFIG),
        bus_read(REG_BUS_CTRL, 1),
        bus_read(REG_BUS_TEST_RO, 4),
        bus_read(REG_BUS_TEST_RW, 4),
        bus_write(SPI_RESP_DELAY_F1, WHD_BUS_SPI_BACKPLANE_READ_PADD_SIZE as u32, 1),
        bus_write(REG_BUS_INTERRUPT, ERROR_IRQS as u8 as u32, 1),
        bus_write(REG_BUS_INTERRUPT_ENABLE, enabled_irqs(bluetooth) as u32, 2),
    ]
}

impl InitStage {
    /// The place of the stage in the script.
    pub open spec fn number(self) -> int {
        match self {
            InitStage::PowerOff => 0,
            InitStage::PowerOffWait => 1,
            InitStage::PowerOn => 2,
            InitStage::PowerOnWait => 3,
            InitStage::Probe => 4,
            InitStage::WriteTest => 5,
            InitStage::ReadTest => 6,
            InitStage::ReadCtrl => 7,
            InitStage::WriteCtrl => 8,
            InitStage::ReadBackCtrl => 9,
            InitStage::CheckFixed => 10,
            InitStage::CheckTest => 11,
            InitStage::SetDelay => 12,
            InitStage::ClearIrqs => 13,
            InitStage::EnableIrqs => 14,
            InitStage::Done { .. } => 15,
        }
    }

    /// The stage after this one, if nothing is wrong.
    pub open spec fn following(self) -> InitStage {
        match self {
            InitStage::PowerOff => InitStage::PowerOffWait,
            InitStage::PowerOffWait => InitStage::PowerOn,
            InitStage::PowerOn => InitStage::PowerOnWait,
            InitStage::PowerOnWait => InitStage::Probe,
            InitStage::Probe => InitStage::WriteTest,
            InitStage::WriteTest => InitStage::ReadTest,
            InitStage::ReadTest => InitStage::ReadCtrl,
            InitStage::ReadCtrl => InitStage::WriteCtrl,
            InitStage::WriteCtrl => InitStage::ReadBackCtrl,
            InitStage::ReadBackCtrl => InitStage::CheckFixed,
            InitStage::CheckFixed => InitStage::CheckTest,
            InitStage::CheckTest => InitStage::SetDelay,
            InitStage::SetDelay => InitStage::ClearIrqs,
            InitStage::ClearIrqs => InitStage::EnableIrqs,
            InitStage::EnableIrqs => InitStage::Done { up: true },
            InitStage::Done { up } => InitStage::Done { up },
        }
    }

    /// Whether a reply is what this stage hopes for.
    pub open spec fn passes(self, reply: Reply) -> bool {
        match self {
            InitStage::Probe => frame::swapped(reply.first) == FEEDBEAD,
            InitStage::ReadTest => frame::swapped(reply.first) == TEST_PATTERN,
            InitStage::CheckFixed => reply.first == FEEDBEAD,
            InitStage::CheckTest => reply.first == TEST_PATTERN,
            _ => true,
        }
    }
}

impl Init {
    /// What the bring-up waits for: the place in the script.
    pub open spec fn pending(self) -> Option<Action> {
        if self.stage is Done {
            None
        } else {
            Some(init_script(self.bluetooth)[self.stage.number()])
        }
    }

    /// The state of the bus after a reply. The log starts anew once the bus is configured: what was
    /// recorded before means nothing.
    pub open spec fn noted(self, state: BusState, reply: Reply) -> BusState {
        match self.stage {
            InitStage::Probe => after_swapped_read(state, FUNC_BUS, REG_BUS_TEST_RO, reply),
            InitStage::WriteTest => after_swapped_write(state, FUNC_BUS, REG_BUS_TEST_RW, reply),
            InitStage::ReadTest => after_swapped_read(state, FUNC_BUS, REG_BUS_TEST_RW, reply),
            InitStage::ReadCtrl => after_swapped_read(state, FUNC_BUS, REG_BUS_CTRL, reply),
            InitStage::WriteCtrl => after_swapped_write(state, FUNC_BUS, REG_BUS_CTRL, reply),
            InitStage::ReadBackCtrl => after_bus_read(state, REG_BUS_CTRL, 1),
            InitStage::CheckFixed => after_bus_read(state, REG_BUS_TEST_RO, 4),
            InitStage::CheckTest => after_bus_read(state, REG_BUS_TEST_RW, 4),
            InitStage::SetDelay => after_bus_write(state, SPI_RESP_DELAY_F1, 1),
            InitStage::ClearIrqs => after_bus_write(state, REG_BUS_INTERRUPT, 1),
            InitStage::EnableIrqs => BusState { log: LogState::empty(), ..state },
            _ => state,
        }
    }

    /// The state of the bus and the bring-up after a reply. A probe that fails is repeated, a check
    /// that fails ends the bring-up.
    pub open spec fn step(self, state: BusState, reply: Reply) -> (BusState, Init) {
        let stage = if self.stage.passes(reply) {
            self.stage.following()
        } else if self.stage == InitStage::Probe {
            InitStage::Probe
        } else {
            InitStage::Done { up: false }
        };
        (self.noted(state, reply), Init { stage, ..self })
    }

    /// The state of the bus and the bring-up after a number of replies.
    pub open spec fn run(self, state: BusState, replies: Seq<Reply>) -> (BusState, Init)
        decreases replies.len(),
    {
        if replies.len() == 0 {
            (state, self)
        } else {
            let (next, op) = self.step(state, replies[0]);
            op.run(next, replies.drop_first())
        }
    }

    /// What the bring-up waits for; nothing once it is done.
    pub fn action(&self) -> (r: Option<Action>)
        ensures
            r == self.pending(),
    {
        match self.stage {
            InitStage::PowerOff => Some(Action::Power { high: false }),
            InitStage::PowerOffWait => Some(Action::Sleep { millis: POWER_OFF_MILLIS }),
            InitStage::PowerOn => Some(Action::Power { high: true }),
            InitStage::PowerOnWait => Some(Action::Sleep { millis: POWER_ON_MILLIS }),
            InitStage::Probe => Some(read32_swapped(FUNC_BUS, REG_BUS_TEST_RO)),
            InitStage::WriteTest => Some(write32_swapped(FUNC_BUS, REG_BUS_TEST_RW, TEST_PATTERN)),
            InitStage::ReadTest => Some(read32_swapped(FUNC_BUS, REG_BUS_TEST_RW)),
            InitStage::ReadCtrl => Some(read32_swapped(FUNC_BUS, REG_BUS_CTRL)),
            InitStage::WriteCtrl => Some(write32_swapped(FUNC_BUS, REG_BUS_CTRL, BUS_CONFIG)),
            InitStage::ReadBackCtrl => Some(bus_readn(REG_BUS_CTRL, 1)),
            InitStage::CheckFixed => Some(bus_readn(REG_BUS_TEST_RO, 4)),
            InitStage::CheckTest => Some(bus_readn(REG_BUS_TEST_RW, 4)),
            InitStage::SetDelay => Some(
                writen(FUNC_BUS, SPI_RESP_DELAY_F1, WHD_BUS_SPI_BACKPLANE_READ_PADD_SIZE as u32, 1),
            ),
            InitStage::ClearIrqs => Some(
                writen(
                    FUNC_BUS,
                    REG_BUS_INTERRUPT,
                    #[verifier::truncate] (ERROR_IRQS as u8) as u32,
                    1,
                ),
            ),
            InitStage::EnableIrqs => {
                let mut val: u16 = WLAN_IRQS;
                if self.bluetooth {
                    val = val | IRQ_F1_INTR;
                }
                Some(writen(FUNC_BUS, REG_BUS_INTERRUPT_ENABLE, val as u32, 2))
            },
            InitStage::Done { .. } => None,
        }
    }

    /// How the bring-up ended, once it has.
    pub fn result(&self) -> (r: Option<Result<(), Error>>)
        ensures
            r == (match self.stage {
                InitStage::Done { up } => Some(
                    if up {
                        Ok(())
                    } else {
                        Err(Error)
                    },
                ),
                _ => None,
            }),
    {
        match self.stage {
            InitStage::Done { up } => if up {
                Some(Ok(()))
            } else {
                Some(Err(Error))
            },
            _ => None,
        }
    }

    /// Takes the reply to what the bring-up waits for.
    pub fn resume<PWR, SPI>(&mut self, bus: &mut SpiBus<PWR, SPI>, reply: Reply)
        requires
            old(bus).wf(),
            old(self).pending() is Some,
        ensures
            final(bus).wf(),
            final(bus).same_hardware(old(bus)),
            (final(bus)@, *final(self)) == old(self).step(old(bus)@, reply),
    {
        match self.stage {
            InitStage::PowerOff => {
                self.stage = InitStage::PowerOffWait;
            },
            InitStage::PowerOffWait => {
                self.stage = InitStage::PowerOn;
            },
            InitStage::PowerOn => {
                self.stage = InitStage::PowerOnWait;
            },
            InitStage::PowerOnWait => {
                self.stage = InitStage::Probe;
            },
            InitStage::Probe => {
                if bus.read32_swapped_done(FUNC_BUS, REG_BUS_TEST_RO, reply) == FEEDBEAD {
                    self.stage = InitStage::WriteTest;
                }
            },
            InitStage::WriteTest => {
                bus.write32_swapped_done(FUNC_BUS, REG_BUS_TEST_RW, reply);
                self.stage = InitStage::ReadTest;
            },
            InitStage::ReadTest => {
                let val: u32 = bus.read32_swapped_done(FUNC_BUS, REG_BUS_TEST_RW, reply);
                self.require(val, TEST_PATTERN, InitStage::ReadCtrl);
            },
            InitStage::ReadCtrl => {
                bus.read32_swapped_done(FUNC_BUS, REG_BUS_CTRL, reply);
                self.stage = InitStage::WriteCtrl;
            },
            InitStage::WriteCtrl => {
                bus.write32_swapped_done(FUNC_BUS, REG_BUS_CTRL, reply);
                self.stage = InitStage::ReadBackCtrl;
            },
            InitStage::ReadBackCtrl => {
                bus.record(cmd_word(READ, INC_ADDR, FUNC_BUS, REG_BUS_CTRL, 1), UNINSTRUMENTED);
                self.stage = InitStage::CheckFixed;
            },
            InitStage::CheckFixed => {
                bus.record(cmd_word(READ, INC_ADDR, FUNC_BUS, REG_BUS_TEST_RO, 4), UNINSTRUMENTED);
                self.require(reply.first, FEEDBEAD, InitStage::CheckTest);
            },
            InitStage::CheckTest => {
                bus.record(cmd_word(READ, INC_ADDR, FUNC_BUS, REG_BUS_TEST_RW, 4), UNINSTRUMENTED);
                self.require(reply.first, TEST_PATTERN, InitStage::SetDelay);
            },
            InitStage::SetDelay => {
                bus.record(
                    cmd_word(WRITE, INC_ADDR, FUNC_BUS, SPI_RESP_DELAY_F1, 1),
                    UNINSTRUMENTED,
                );
                self.stage = InitStage::ClearIrqs;
            },
            InitStage::ClearIrqs => {
                bus.record(
                    cmd_word(WRITE, INC_ADDR, FUNC_BUS, REG_BUS_INTERRUPT, 1),
                    UNINSTRUMENTED,
                );
                self.stage = InitStage::EnableIrqs;
            },
            InitStage::EnableIrqs => {
                bus.arm();
                self.stage = InitStage::Done { up: true };
            },
            InitStage::Done { .. } => {},
        }
    }

    /// Goes on to the stage `then` if a register reads as it should, else the bring-up has failed.
    fn require(&mut self, val: u32, expected: u32, then: InitStage)
        ensures
            *final(self) == (Init {
                stage: if val == expected {
                    then
                } else {
                    InitStage::Done { up: false }
                },
                ..*old(self)
            }),
    {
        if val == expected {
            self.stage = then;
        } else {
            self.stage = InitStage::Done { up: false };
        }
    }
}

/// How far a reconfiguration has come; each stage but the last waits for a reply.
#[derive(Clone, Copy, PartialEq, Eq, Structural, Debug)]
pub enum ReconfigureStage {
    WriteCtrl,
    SetDelay,
    ClearIrqs,
    Done,
}

/// A reconfiguration under way.
#[derive(Clone, Copy, PartialEq, Eq, Structural, Debug)]
pub struct Reconfigure {
    pub stage: ReconfigureStage,
}

impl Reconfigure {
    /// What the reconfiguration waits for: the registers that the bring-up sets, in its order.
    pub open spec fn pending(self) -> Option<Action> {
        match self.stage {
            ReconfigureStage::WriteCtrl => Some(swapped_write(FUNC_BUS, REG_BUS_CTRL, BUS_CONFIG)),
            ReconfigureStage::SetDelay => Some(
                bus_write(SPI_RESP_DELAY_F1, WHD_BUS_SPI_BACKPLANE_READ_PADD_SIZE as u32, 1),
            ),
            ReconfigureStage::ClearIrqs => Some(
                bus_write(REG_BUS_INTERRUPT, ERROR_IRQS as u8 as u32, 1),
            ),
            ReconfigureStage::Done => None,
        }
    }

    /// The state of the bus and the reconfiguration after a reply.
    pub open spec fn step(self, state: BusState, reply: Reply) -> (BusState, Reconfigure) {
        match self.stage {
            ReconfigureStage::WriteCtrl => (
                after_swapped_write(state, FUNC_BUS, REG_BUS_CTRL, reply),
                Reconfigure { stage: ReconfigureStage::SetDelay },
            ),
            ReconfigureStage::SetDelay => (
                after_bus_write(state, SPI_RESP_DELAY_F1, 1),
                Reconfigure { stage: ReconfigureStage::ClearIrqs },
            ),
            ReconfigureStage::ClearIrqs => (
                after_bus_write(state, REG_BUS_INTERRUPT, 1),
                Reconfigure { stage: ReconfigureStage::Done },
            ),
            ReconfigureStage::Done => (state, self),
        }
    }

    /// What the reconfiguration waits for; nothing once it is done.
    pub fn action(&self) -> (r: Option<Action>)
        ensures
            r == self.pending(),
    {
        match self.stage {
            ReconfigureStage::WriteCtrl => Some(write32_swapped(FUNC_BUS, REG_BUS_CTRL, BUS_CONFIG)),
            ReconfigureStage::SetDelay => Some(
                writen(FUNC_BUS, SPI_RESP_DELAY_F1, WHD_BUS_SPI_BACKPLANE_READ_PADD_SIZE as u32, 1),
            ),
            ReconfigureStage::ClearIrqs => Some(
                writen(
                    FUNC_BUS,
                    REG_BUS_INTERRUPT,
                    #[verifier::truncate] (ERROR_IRQS as u8) as u32,
                    1,
                ),
            ),
            ReconfigureStage::Done => None,
        }
    }

    /// Takes the reply to what the reconfiguration waits for.
    pub fn resume<PWR, SPI>(&mut self, bus: &mut SpiBus<PWR, SPI>, reply: Reply)
        requires
            old(bus).wf(),
            old(self).pending() is Some,
        ensures
            final(bus).wf(),
            final(bus).same_hardware(old(bus)),
            (final(bus)@, *final(self)) == old(self).step(old(bus)@, reply),
    {
        match self.stage {
            ReconfigureStage::WriteCtrl => {
                bus.write32_swapped_done(FUNC_BUS, REG_BUS_CTRL, reply);
                self.stage = ReconfigureStage::SetDelay;
            },
            ReconfigureStage::SetDelay => {
                bus.record(
                    cmd_word(WRITE, INC_ADDR, FUNC_BUS, SPI_RESP_DELAY_F1, 1),
                    UNINSTRUMENTED,
                );
                self.stage = ReconfigureStage::ClearIrqs;
            },
            ReconfigureStage::ClearIrqs => {
                bus.record(
                    cmd_word(WRITE, INC_ADDR, FUNC_BUS, REG_BUS_INTERRUPT, 1),
                    UNINSTRUMENTED,
                );
                self.stage = ReconfigureStage::Done;
            },
            ReconfigureStage::Done => {},
        }
    }
}

/// How far a self-test has come; each stage but the last waits for a reply.
#[derive(Clone, Copy, PartialEq, Eq, Structural, Debug)]
pub enum SelftestStage {
    ReadFixed,
    ReadTest { ro: u32 },
    Done { ro: u32, rw: u32 },
}

/// A self-test under way.
#[derive(Clone, Copy, PartialEq, Eq, Structural, Debug)]
pub struct Selftest {
    pub stage: SelftestStage,
}

impl Selftest {
    /// What the self-test waits for.
    pub open spec fn pending(self) -> Option<Action> {
        match self.stage {
            SelftestStage::ReadFixed => Some(bus_read(REG_BUS_TEST_RO, 4)),
            SelftestStage::ReadTest { .. } => Some(bus_read(REG_BUS_TEST_RW, 4)),
            SelftestStage::Done { .. } => None,
        }
    }

    /// The state of the bus and the self-test after a reply.
    pub open spec fn step(self, state: BusState, reply: Reply) -> (BusState, Selftest) {
        match self.stage {
            SelftestStage::ReadFixed => (
                after_bus_read(state, REG_BUS_TEST_RO, 4),
                Selftest { stage: SelftestStage::ReadTest { ro: reply.first } },
            ),
            SelftestStage::ReadTest { ro } => (
                after_bus_read(state, REG_BUS_TEST_RW, 4),
                Selftest { stage: SelftestStage::Done { ro, rw: reply.first } },
            ),
            SelftestStage::Done { .. } => (state, self),
        }
    }

    /// What the self-test waits for; nothing once it is done.
    pub fn action(&self) -> (r: Option<Action>)
        ensures
            r == self.pending(),
    {
        match self.stage {
            SelftestStage::ReadFixed => Some(bus_readn(REG_BUS_TEST_RO, 4)),
            SelftestStage::ReadTest { .. } => Some(bus_readn(REG_BUS_TEST_RW, 4)),
            SelftestStage::Done { .. } => None,
        }
    }

    /// What the two test registers read as, once the self-test is done.
    pub fn result(&self) -> (r: Option<(u32, u32)>)
        ensures
            r == (match self.stage {
                SelftestStage::Done { ro, rw } => Some((ro, rw)),
                _ => None,
            }),
    {
        match self.stage {
            SelftestStage::Done { ro, rw } => Some((ro, rw)),
            _ => None,
        }
    }

    /// Takes the reply to what the self-test waits for.
    pub fn resume<PWR, SPI>(&mut self, bus: &mut SpiBus<PWR, SPI>, reply: Reply)
        requires
            old(bus).wf(),
            old(self).pending() is Some,
        ensures
            final(bus).wf(),
            final(bus).same_hardware(old(bus)),
            (final(bus)@, *final(self)) == old(self).step(old(bus)@, reply),
    {
        match self.stage {
            SelftestStage::ReadFixed => {
                bus.record(cmd_word(READ, INC_ADDR, FUNC_BUS, REG_BUS_TEST_RO, 4), UNINSTRUMENTED);
                self.stage = SelftestStage::ReadTest { ro: reply.first };
            },
            SelftestStage::ReadTest { ro } => {
                bus.record(cmd_word(READ, INC_ADDR, FUNC_BUS, REG_BUS_TEST_RW, 4), UNINSTRUMENTED);
                self.stage = SelftestStage::Done { ro, rw: reply.first };
            },
            SelftestStage::Done { .. } => {},
        }
    }
}

impl<PWR, SPI> SpiBus<PWR, SPI> {
    /// Starts to bring the bus up.
    pub fn init(&self, bluetooth_enabled: bool) -> (r: Init)
        ensures
            r == (Init { bluetooth: bluetooth_enabled, stage: InitStage::PowerOff }),
    {
        Init { bluetooth: bluetooth_enabled, stage: InitStage::PowerOff }
    }

    /// Starts to set the bus registers again, without a power cycle and without touching the
    /// backplane, so that a bus whose configuration was lost gets it back.
    pub fn bus_reconfigure(&self) -> (r: Reconfigure)
        ensures
            r == (Reconfigure { stage: ReconfigureStage::WriteCtrl }),
    {
        Reconfigure { stage: ReconfigureStage::WriteCtrl }
    }

    /// Starts to read the two test registers.
    pub fn bus_selftest(&self) -> (r: Selftest)
        ensures
            r == (Selftest { stage: SelftestStage::ReadFixed }),
    {
        Selftest { stage: SelftestStage::ReadFixed }
    }

    /// Takes the reply to a read by `read32_swapped`, and returns what the register reads as.
    pub fn read32_swapped_done(&mut self, func: u8, addr: u32, reply: Reply) -> (r: u32)
        requires
            old(self).wf(),
        ensures
            final(self).wf(),
            final(self).same_hardware(old(self)),
            final(self)@ == after_swapped_read(old(self)@, func, addr, reply),
            r == frame::swapped(reply.first),
    {
        self.set_status(reply.returned);
        self.record(swap16(cmd_word(READ, INC_ADDR, func, addr, 4)), reply.returned);
        swap16(reply.first)
    }

    /// Takes the reply to a write by `write32_swapped`.
    pub fn write32_swapped_done(&mut self, func: u8, addr: u32, reply: Reply)
        requires
            old(self).wf(),
        ensures
            final(self).wf(),
            final(self).same_hardware(old(self)),
            final(self)@ == after_swapped_write(old(self)@, func, addr, reply),
    {
        self.set_status(reply.returned);
        self.record(cmd_word(WRITE, INC_ADDR, func, addr, 4), reply.returned);
    }
}

/// The bring-up goes through its script in order. Only the probe is repeated, and only a check that
/// fails ends the bring-up before the end of the script.
pub proof fn law_init_order(op: Init, state: BusState, reply: Reply)
    requires
        op.pending() is Some,
    ensures
        op.pending() == Some(init_script(op.bluetooth)[op.stage.number()]),
        ({
            let next = op.step(state, reply).1;
            &&& next.bluetooth == op.bluetooth
            &&& op.stage.passes(reply) ==> next.stage.number() == op.stage.number() + 1
            &&& !op.stage.passes(reply) && op.stage == InitStage::Probe ==> next == op
            &&& !op.stage.passes(reply) && op.stage != InitStage::Probe ==> next.stage
                == (InitStage::Done { up: false })
            &&& next.stage == (InitStage::Done { up: true }) ==> op.stage == InitStage::EnableIrqs
        }),
{
}

/// A bring-up that is done stays as it is.
proof fn lemma_done_init_stays(op: Init, state: BusState, replies: Seq<Reply>)
    requires
        op.stage is Done,
    ensures
        op.run(state, replies) == (state, op),
    decreases replies.len(),
{
    if replies.len() > 0 {
        lemma_done_init_stays(op, state, replies.drop_first());
    }
}

/// Probes that fail are repeated.
proof fn lemma_probes(op: Init, state: BusState, probes: Seq<Reply>, rest: Seq<Reply>) -> (s:
    BusState)
    requires
        op.stage == InitStage::Probe,
        forall|i: int| 0 <= i < probes.len() ==> !op.stage.passes(#[trigger] probes[i]),
    ensures
        op.run(state, probes + rest) == op.run(s, rest),
    decreases probes.len(),
{
    if probes.len() == 0 {
        assert(probes + rest =~= rest);
        state
    } else {
        let all = probes + rest;
        assert(all.drop_first() =~= probes.drop_first() + rest);
        assert(all[0] == probes[0]);
        lemma_probes(op, op.step(state, probes[0]).0, probes.drop_first(), rest)
    }
}

/// The bring-up succeeds if and only if, after the fixed test register has read as it should once,
/// the test pattern reads back, and both read as they should with the new configuration. `power`
/// are the replies while the power is cycled, `probes` those to the probes that failed, `rest`
/// those from the probe that did not fail on. A bus that is up has an empty log.
pub proof fn law_init_outcome(
    bluetooth: bool,
    state: BusState,
    power: Seq<Reply>,
    probes: Seq<Reply>,
    rest: Seq<Reply>,
)
    requires
        power.len() == 4,
        forall|i: int|
            0 <= i < probes.len() ==> frame::swapped((#[trigger] probes[i]).first) != FEEDBEAD,
        rest.len() == 11,
        frame::swapped(rest[0].first) == FEEDBEAD,
    ensures
        ({
            let start = Init { bluetooth, stage: InitStage::PowerOff };
            let (end, op) = start.run(state, power + (probes + rest));
            let up = frame::swapped(rest[2].first) == TEST_PATTERN && rest[6].first == FEEDBEAD
                && rest[7].first == TEST_PATTERN;
            &&& op.stage == (InitStage::Done { up })
            &&& up ==> end.log == LogState::empty()
        }),
{
    let start = Init { bluetooth, stage: InitStage::PowerOff };
    let tail = probes + rest;
    let all = power + tail;
    reveal_with_fuel(Init::run, 5);
    assert(all[0] == power[0] && all.drop_first()[0] == power[1]
        && all.drop_first().drop_first()[0] == power[2]
        && all.drop_first().drop_first().drop_first()[0] == power[3]);
    assert(all.drop_first().drop_first().drop_first().drop_first() =~= tail);
    let probing = Init { bluetooth, stage: InitStage::Probe };
    assert(start.run(state, all) == probing.run(state, tail));
    let s = lemma_probes(probing, state, probes, rest);
    lemma_init_rest(bluetooth, s, rest);
}

/// The bring-up from the probe that does not fail on.
proof fn lemma_init_rest(bluetooth: bool, state: BusState, rest: Seq<Reply>)
    requires
        rest.len() == 11,
        frame::swapped(rest[0].first) == FEEDBEAD,
    ensures
        ({
            let (end, op) = (Init { bluetooth, stage: InitStage::Probe }).run(state, rest);
            let up = frame::swapped(rest[2].first) == TEST_PATTERN && rest[6].first == FEEDBEAD
                && rest[7].first == TEST_PATTERN;
            &&& op.stage == (InitStage::Done { up })
            &&& up ==> end.log == LogState::empty()
        }),
{
    let op0 = Init { bluetooth, stage: InitStage::Probe };
    let r0 = rest;
    let (s1, op1) = op0.step(state, r0[0]);
    let r1 = r0.drop_first();
    let (s2, op2) = op1.step(s1, r1[0]);
    let r2 = r1.drop_first();
    let (s3, op3) = op2.step(s2, r2[0]);
    let r3 = r2.drop_first();
    assert(r2[0] == rest[2]);
    assert(op0.run(state, rest) == op3.run(s3, r3)) by {
        assert(op0.run(state, r0) == op1.run(s1, r1));
        assert(op1.run(s1, r1) == op2.run(s2, r2));
        assert(op2.run(s2, r2) == op3.run(s3, r3));
    }
    if op3.stage is Done {
        lemma_done_init_stays(op3, s3, r3);
    } else {
        let (s4, op4) = op3.step(s3, r3[0]);
        let r4 = r3.drop_first();
        let (s5, op5) = op4.step(s4, r4[0]);
        let r5 = r4.drop_first();
        let (s6, op6) = op5.step(s5, r5[0]);
        let r6 = r5.drop_first();
        assert(op3.run(s3, r3) == op6.run(s6, r6)) by {
            assert(op3.run(s3, r3) == op4.run(s4, r4));
            assert(op4.run(s4, r4) == op5.run(s5, r5));
            assert(op5.run(s5, r5) == op6.run(s6, r6));
        }
        assert(r6 =~= rest.skip(6));
        lemma_init_checks(bluetooth, s6, r6);
    }
}

/// The bring-up from the checks with the new configuration on.
proof fn lemma_init_checks(bluetooth: bool, state: BusState, rest: Seq<Reply>)
    requires
        rest.len() == 5,
    ensures
        ({
            let (end, op) = (Init { bluetooth, stage: InitStage::CheckFixed }).run(state, rest);
            let up = rest[0].first == FEEDBEAD && rest[1].first == TEST_PATTERN;
            &&& op.stage == (InitStage::Done { up })
            &&& up ==> end.log == LogState::empty()
        }),
{
    let op0 = Init { bluetooth, stage: InitStage::CheckFixed };
    let (s1, op1) = op0.step(state, rest[0]);
    let r1 = rest.drop_first();
    assert(op0.run(state, rest) == op1.run(s1, r1));
    if op1.stage is Done {
        lemma_done_init_stays(op1, s1, r1);
    } else {
        let (s2, op2) = op1.step(s1, r1[0]);
        let r2 = r1.drop_first();
        assert(op1.run(s1, r1) == op2.run(s2, r2));
        if op2.stage is Done {
            lemma_done_init_stays(op2, s2, r2);
        } else {
            let (s3, op3) = op2.step(s2, r2[0]);
            let r3 = r2.drop_first();
            let (s4, op4) = op3.step(s3, r3[0]);
            let r4 = r3.drop_first();
            let (s5, op5) = op4.step(s4, r4[0]);
            let r5 = r4.drop_first();
            assert(op2.run(s2, r2) == op5.run(s5, r5)) by {
                assert(op2.run(s2, r2) == op3.run(s3, r3));
                assert(op3.run(s3, r3) == op4.run(s4, r4));
                assert(op4.run(s4, r4) == op5.run(s5, r5));
            }
        }
    }
}

/// A reconfiguration writes what the bring-up writes to the same registers, in the same order.
pub proof fn law_reconfigure_repeats_init(bluetooth: bool)
    ensures
        (Reconfigure { stage: ReconfigureStage::WriteCtrl }).pending() == (Init {
            bluetooth,
            stage: InitStage::WriteCtrl,
        }).pending(),
        (Reconfigure { stage: ReconfigureStage::SetDelay }).pending() == (Init {
            bluetooth,
            stage: InitStage::SetDelay,
        }).pending(),
        (Reconfigure { stage: ReconfigureStage::ClearIrqs }).pending() == (Init {
            bluetooth,
            stage: InitStage::ClearIrqs,
        }).pending(),
{
}

/// A reconfiguration only writes registers of the bus function: it does not cycle the power, does
/// not touch the backplane and keeps the window. The first write still goes out with its halves
/// exchanged.
pub proof fn law_reconfigure_stays_on_bus(op: Reconfigure, state: BusState, reply: Reply)
    ensures
        match op.pending() {
            Some(Action::Write { cmd, .. }) => {
                let word = if op.stage == ReconfigureStage::WriteCtrl {
                    frame::swapped(cmd)
                } else {
                    cmd
                };
                frame::fields(word).write && frame::fields(word).func == FUNC_BUS
            },
            Some(_) => false,
            None => true,
        },
        op.step(state, reply).0.window == state.window,
{
    frame::law_command_fields(WRITE, INC_ADDR, FUNC_BUS, REG_BUS_CTRL, 4);
    frame::law_swapped_twice(frame::command(WRITE, INC_ADDR, FUNC_BUS, REG_BUS_CTRL, 4));
    frame::law_command_fields(WRITE, INC_ADDR, FUNC_BUS, SPI_RESP_DELAY_F1, 1);
    frame::law_command_fields(WRITE, INC_ADDR, FUNC_BUS, REG_BUS_INTERRUPT, 1);
}

/// An exchanged word, and what is understood of it.
proof fn lemma_halves(x: u32)
    ensures
        wire::halves(frame::swapped(x)) == x,
        wire::halves(x) == frame::swapped(x),
{
    frame::law_swapped_halves(x);
}

/// The values that are written: the bus configuration, the error interrupts and those enabled.
proof fn lemma_values()
    ensures
        BUS_CONFIG == 0x0002_04B1,
        ERROR_IRQS as u8 as u32 == 0x99,
        WLAN_IRQS == 0x00BE,
        enabled_irqs(false) == 0x00BE,
        enabled_irqs(true) == 0x20BE,
{
    law_bus_config();
    assert(ERROR_IRQS as u8 as u32 == 0x99 && WLAN_IRQS == 0x00BE && WLAN_IRQS | IRQ_F1_INTR
        == 0x20BE) by (bit_vector);
}

/// What the bring-up asks for at each stage, as numbers. The power goes off for 20 ms and on again,
/// and the device gets 250 ms, whether or not Bluetooth is enabled. Up to the write of the bus
/// configuration the words go out with their halves exchanged. Bluetooth adds bit 13 to the
/// interrupts that are enabled and changes nothing else.
pub proof fn law_bring_up_asks(op: Init)
    ensures
        match op.stage {
            InitStage::PowerOff => op.pending() == Some(Action::Power { high: false }),
            InitStage::PowerOffWait => op.pending() == Some(Action::Sleep { millis: 20 }),
            InitStage::PowerOn => op.pending() == Some(Action::Power { high: true }),
            InitStage::PowerOnWait => op.pending() == Some(Action::Sleep { millis: 250 }),
            InitStage::Probe => wire::reads_halves(op.pending(), 0, 0x14, 4),
            InitStage::WriteTest => wire::writes_halves(op.pending(), 0, 0x18, 4, 0x12345678),
            InitStage::ReadTest => wire::reads_halves(op.pending(), 0, 0x18, 4),
            InitStage::ReadCtrl => wire::reads_halves(op.pending(), 0, 0, 4),
            InitStage::WriteCtrl => wire::writes_halves(op.pending(), 0, 0, 4, 0x0002_04B1),
            InitStage::ReadBackCtrl => wire::reads(op.pending(), 0, 0, 1, 1),
            InitStage::CheckFixed => wire::reads(op.pending(), 0, 0x14, 4, 1),
            InitStage::CheckTest => wire::reads(op.pending(), 0, 0x18, 4, 1),
            InitStage::SetDelay => wire::writes(op.pending(), 0, 0x1D, 1, 4),
            InitStage::ClearIrqs => wire::writes(op.pending(), 0, 4, 1, 0x99),
            InitStage::EnableIrqs => wire::writes(
                op.pending(),
                0,
                6,
                2,
                if op.bluetooth {
                    0x20BE
                } else {
                    0x00BE
                },
            ),
            InitStage::Done { .. } => op.pending() is None,
        },
{
    lemma_values();
    lemma_halves(TEST_PATTERN);
    lemma_halves(BUS_CONFIG);
    lemma_halves(frame::command(READ, INC_ADDR, FUNC_BUS, REG_BUS_TEST_RO, 4));
    lemma_halves(frame::command(READ, INC_ADDR, FUNC_BUS, REG_BUS_TEST_RW, 4));
    lemma_halves(frame::command(READ, INC_ADDR, FUNC_BUS, REG_BUS_CTRL, 4));
    lemma_halves(frame::command(WRITE, INC_ADDR, FUNC_BUS, REG_BUS_TEST_RW, 4));
    lemma_halves(frame::command(WRITE, INC_ADDR, FUNC_BUS, REG_BUS_CTRL, 4));
    frame::law_command_layout(READ, INC_ADDR, FUNC_BUS, REG_BUS_TEST_RO, 4);
    frame::law_command_layout(READ, INC_ADDR, FUNC_BUS, REG_BUS_TEST_RW, 4);
    frame::law_command_layout(READ, INC_ADDR, FUNC_BUS, REG_BUS_CTRL, 4);
    frame::law_command_layout(READ, INC_ADDR, FUNC_BUS, REG_BUS_CTRL, 1);
    frame::law_command_layout(WRITE, INC_ADDR, FUNC_BUS, REG_BUS_TEST_RW, 4);
    frame::law_command_layout(WRITE, INC_ADDR, FUNC_BUS, REG_BUS_CTRL, 4);
    frame::law_command_layout(WRITE, INC_ADDR, FUNC_BUS, SPI_RESP_DELAY_F1, 1);
    frame::law_command_layout(WRITE, INC_ADDR, FUNC_BUS, REG_BUS_INTERRUPT, 1);
    frame::law_command_layout(WRITE, INC_ADDR, FUNC_BUS, REG_BUS_INTERRUPT_ENABLE, 2);
}

/// With and without Bluetooth the bring-up asks for the same at every stage, goes on in the same
/// way and does the same to the bus, but for the value of one write: the interrupts that are
/// enabled, to which Bluetooth adds one.
pub proof fn law_bluetooth_changes_one_value(
    with: Init,
    without: Init,
    state: BusState,
    reply: Reply,
)
    requires
        with.bluetooth,
        !without.bluetooth,
        with.stage == without.stage,
    ensures
        with.stage != InitStage::EnableIrqs ==> with.pending() == without.pending(),
        with.stage == InitStage::EnableIrqs ==> wire::sent(with.pending()) == wire::sent(
            without.pending(),
        ),
        with.stage == InitStage::EnableIrqs ==> (with.pending() matches Some(
            Action::Write { val: w, .. },
        ) && without.pending() matches Some(Action::Write { val: v, .. }) && w == v + 0x2000),
        with.step(state, reply).0 == without.step(state, reply).0,
        with.step(state, reply).1.stage == without.step(state, reply).1.stage,
        with.step(state, reply).1.bluetooth,
        !without.step(state, reply).1.bluetooth,
{
    law_bring_up_asks(with);
    law_bring_up_asks(without);
}

/// The first four things that the bring-up does cycle the power, whatever comes back, and the power
/// stays on from then on.
pub proof fn law_power_is_cycled(bluetooth: bool, state: BusState, replies: Seq<Reply>, k: int)
    requires
        0 <= k <= replies.len(),
    ensures
        ({
            let start = Init { bluetooth, stage: InitStage::PowerOff };
            let action = start.run(state, replies.take(k)).1.pending();
            &&& k == 0 ==> action == Some(Action::Power { high: false })
            &&& k == 1 ==> action == Some(Action::Sleep { millis: 20 })
            &&& k == 2 ==> action == Some(Action::Power { high: true })
            &&& k == 3 ==> action == Some(Action::Sleep { millis: 250 })
            &&& k >= 4 ==> !(action matches Some(Action::Power { .. }))
            &&& k >= 4 ==> !(action matches Some(Action::Sleep { .. }))
        }),
{
    let start = Init { bluetooth, stage: InitStage::PowerOff };
    lemma_power_run(start, state, replies.take(k));
    law_bring_up_asks(start.run(state, replies.take(k)).1);
}

/// The stage after a number of replies, from a stage of the power cycle or behind it.
proof fn lemma_power_run(op: Init, state: BusState, replies: Seq<Reply>)
    ensures
        ({
            let from = op.stage.number();
            let to = op.run(state, replies).1.stage.number();
            &&& from + replies.len() < 4 ==> to == from + replies.len()
            &&& from + replies.len() >= 4 ==> to >= 4
        }),
    decreases replies.len(),
{
    if replies.len() > 0 {
        let (next, after) = op.step(state, replies[0]);
        lemma_power_run(after, next, replies.drop_first());
    }
}

/// How the bring-up goes on after each reply. A probe is repeated until the register reads as it
/// should, with its halves exchanged; a register that does not read as it should later on ends the
/// bring-up. What went out is recorded: with the status that the transfer returned, which is noted,
/// up to the write of the bus configuration, and without one behind it. A command that reads is
/// recorded as it went out, one that writes as it was meant. Once all is configured the log is
/// empty. The window and the counts are left alone.
pub proof fn law_bring_up_course(op: Init, state: BusState, reply: Reply)
    requires
        op.pending() is Some,
    ensures
        ({
            let (s, n) = op.step(state, reply);
            let early = op.stage.number() <= 8;
            let wrong = match op.stage {
                InitStage::Probe => wire::halves(reply.first) != 0xFEEDBEAD,
                InitStage::ReadTest => wire::halves(reply.first) != 0x12345678,
                InitStage::CheckFixed => reply.first != 0xFEEDBEAD,
                InitStage::CheckTest => reply.first != 0x12345678,
                _ => false,
            };
            &&& n.bluetooth == op.bluetooth
            &&& n.stage == if wrong {
                if op.stage == InitStage::Probe {
                    InitStage::Probe
                } else {
                    InitStage::Done { up: false }
                }
            } else {
                match op.stage {
                    InitStage::PowerOff => InitStage::PowerOffWait,
                    InitStage::PowerOffWait => InitStage::PowerOn,
                    InitStage::PowerOn => InitStage::PowerOnWait,
                    InitStage::PowerOnWait => InitStage::Probe,
                    InitStage::Probe => InitStage::WriteTest,
                    InitStage::WriteTest => InitStage::ReadTest,
                    InitStage::ReadTest => InitStage::ReadCtrl,
                    InitStage::ReadCtrl => InitStage::WriteCtrl,
                    InitStage::WriteCtrl => InitStage::ReadBackCtrl,
                    InitStage::ReadBackCtrl => InitStage::CheckFixed,
                    InitStage::CheckFixed => InitStage::CheckTest,
                    InitStage::CheckTest => InitStage::SetDelay,
                    InitStage::SetDelay => InitStage::ClearIrqs,
                    InitStage::ClearIrqs => InitStage::EnableIrqs,
                    _ => InitStage::Done { up: true },
                }
            }
            &&& s.window == state.window
            &&& bus::same_counts(s, state)
            &&& match op.pending() {
                Some(Action::Read { cmd, .. }) => if early {
                    s.log == state.log.record(cmd, reply.returned) && s.status == reply.returned
                } else {
                    s.log == state.log.record(cmd, 0) && s.status == state.status
                },
                Some(Action::Write { cmd, .. }) => if early {
                    s.log == state.log.record(wire::halves(cmd) as u32, reply.returned) && s.status
                        == reply.returned
                } else if op.stage == InitStage::EnableIrqs {
                    s.log.entries.len() == 0 && !s.log.frozen && s.status == state.status
                } else {
                    s.log == state.log.record(cmd, 0) && s.status == state.status
                },
                _ => s == state,
            }
        }),
{
    law_bring_up_asks(op);
    lemma_halves(reply.first);
    lemma_halves(frame::command(WRITE, INC_ADDR, FUNC_BUS, REG_BUS_TEST_RW, 4));
    lemma_halves(frame::command(WRITE, INC_ADDR, FUNC_BUS, REG_BUS_CTRL, 4));
}

/// What a reconfiguration asks for, as numbers: the first write goes out with its halves exchanged,
/// for a device that has lost its configuration.
pub proof fn law_reconfigure_asks(op: Reconfigure)
    ensures
        match op.stage {
            ReconfigureStage::WriteCtrl => wire::writes_halves(op.pending(), 0, 0, 4, 0x0002_04B1),
            ReconfigureStage::SetDelay => wire::writes(op.pending(), 0, 0x1D, 1, 4),
            ReconfigureStage::ClearIrqs => wire::writes(op.pending(), 0, 4, 1, 0x99),
            ReconfigureStage::Done => op.pending() is None,
        },
{
    law_bring_up_asks(Init { bluetooth: false, stage: InitStage::WriteCtrl });
    law_bring_up_asks(Init { bluetooth: false, stage: InitStage::SetDelay });
    law_bring_up_asks(Init { bluetooth: false, stage: InitStage::ClearIrqs });
    law_reconfigure_repeats_init(false);
}

/// How a reconfiguration goes on after each reply: it makes its three writes, whatever comes back,
/// and records them; the status that the first one returned is noted.
pub proof fn law_reconfigure_course(op: Reconfigure, state: BusState, reply: Reply)
    requires
        op.pending() is Some,
    ensures
        ({
            let (s, n) = op.step(state, reply);
            &&& s.window == state.window
            &&& bus::same_counts(s, state)
            &&& match op.stage {
                ReconfigureStage::WriteCtrl => {
                    &&& n.stage == ReconfigureStage::SetDelay
                    &&& s.status == reply.returned
                    &&& s.log == state.log.record(
                        wire::halves(wire::sent(op.pending())) as u32,
                        reply.returned,
                    )
                },
                _ => {
                    &&& n.stage == if op.stage == ReconfigureStage::SetDelay {
                        ReconfigureStage::ClearIrqs
                    } else {
                        ReconfigureStage::Done
                    }
                    &&& s.status == state.status
                    &&& s.log == state.log.record(wire::sent(op.pending()), 0)
                },
            }
        }),
{
    lemma_halves(frame::command(WRITE, INC_ADDR, FUNC_BUS, REG_BUS_CTRL, 4));
}

/// A self-test reads the two test registers, one word each, and its result is what they read as, in
/// that order. The reads are recorded without a status and nothing else changes.
pub proof fn law_selftest_reads_both(state: BusState, first: Reply, second: Reply)
    ensures
        ({
            let op0 = Selftest { stage: SelftestStage::ReadFixed };
            let (s1, op1) = op0.step(state, first);
            let (s2, op2) = op1.step(s1, second);
            &&& wire::reads(op0.pending(), 0, 0x14, 4, 1)
            &&& wire::reads(op1.pending(), 0, 0x18, 4, 1)
            &&& op2.pending() is None
            &&& op2.stage == (SelftestStage::Done { ro: first.first, rw: second.first })
            &&& s2.log == state.log.record(wire::sent(op0.pending()), 0).record(
                wire::sent(op1.pending()),
                0,
            )
            &&& s2.status == state.status && s2.window == state.window
            &&& bus::same_counts(s2, state)
        }),
{
    law_bring_up_asks(Init { bluetooth: false, stage: InitStage::CheckFixed });
    law_bring_up_asks(Init { bluetooth: false, stage: InitStage::CheckTest });
}

/// Each half of the exchange of a word while the device takes words of 16 bits: the command and the
/// value go out with their halves exchanged, what comes back is exchanged again, and the status
/// that the transfer returned is noted and recorded.
pub proof fn law_swapped_exchanges(
    func: u8,
    addr: u32,
    val: u32,
    state: BusState,
    reply: Reply,
)
    ensures
        wire::reads_halves(Some(swapped_read(func, addr)), func as int, addr as int, 4),
        wire::writes_halves(
            Some(swapped_write(func, addr, val)),
            func as int,
            addr as int,
            4,
            val as int,
        ),
        ({
            let r = after_swapped_read(state, func, addr, reply);
            let w = after_swapped_write(state, func, addr, reply);
            &&& r.status == reply.returned && w.status == reply.returned
            &&& r.window == state.window && w.window == state.window
            &&& bus::same_counts(r, state) && bus::same_counts(w, state)
            &&& r.log == state.log.record(
                wire::sent(Some(swapped_read(func, addr))),
                reply.returned,
            )
            &&& w.log == state.log.record(
                wire::word(true, func as int, addr as int, 4) as u32,
                reply.returned,
            )
        }),
{
    lemma_halves(val);
    lemma_halves(frame::command(READ, INC_ADDR, func, addr, 4));
    lemma_halves(frame::command(WRITE, INC_ADDR, func, addr, 4));
    frame::law_command_layout(READ, INC_ADDR, func, addr, 4);
    frame::law_command_layout(WRITE, INC_ADDR, func, addr, 4);
}

} // verus!
