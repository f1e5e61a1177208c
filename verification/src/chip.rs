//! A model of the bus registers and the power supply of the chip, and what bringing the bus up,
//! configuring it again and testing it achieve when they are run against it.

use vstd::prelude::*;

use crate::bus::BusState;
use crate::io::{Action, Reply};
use crate::setup;
use crate::setup::{Init, InitStage, Reconfigure, ReconfigureStage, Selftest, SelftestStage};
use crate::wire;

verus! {

/// The part of the chip that the set-up sees: its power, for how long it has been off and on, and
/// the registers of the bus function.
#[verifier::ext_equal]
pub struct Chip {
    pub powered: bool,
    /// How long the power was off when it last was, in milliseconds.
    pub off: int,
    /// How long the power has been on.
    pub up: int,
    /// Whether the chip takes words of 32 bits, rather than of 16.
    pub wide: bool,
    /// The test register that can be written.
    pub test: int,
    /// The bus configuration.
    pub ctrl: int,
    /// The response delay of backplane reads.
    pub delay: int,
    /// Whether an error interrupt is pending.
    pub errors: bool,
    /// The interrupts that are enabled.
    pub enabled: int,
}

impl Chip {
    /// The chip answers once it has been off for 20 ms and then on for 250 ms.
    pub open spec fn ready(self) -> bool {
        self.powered && self.off >= 20 && self.up >= 250
    }

    /// What a word stands for, by the width of the words that the chip takes.
    pub open spec fn understands(self, x: u32) -> int {
        if self.wide {
            x as int
        } else {
            wire::halves(x)
        }
    }

    /// Whether the chip can become `next` on an action, with the given reply. A transfer with a
    /// chip that is not ready, or one that the chip does not understand, does anything; so does a
    /// reply that was not asked for.
    pub open spec fn serves(self, action: Action, reply: Reply, next: Chip) -> bool {
        match action {
            Action::Power { high } => next == if high {
                Chip { powered: true, up: 0, ..self }
            } else {
                Chip { powered: false, off: 0, up: 0, wide: false, ..self }
            },
            Action::Sleep { millis } => next == if self.powered {
                Chip { up: self.up + millis, ..self }
            } else {
                Chip { off: self.off + millis, ..self }
            },
            Action::Read { cmd, words } => {
                let c = self.understands(cmd);
                let v = self.understands(reply.first);
                self.ready() && words >= 1 ==> {
                    &&& next == self
                    &&& c == wire::word(false, 0, 0x14, 4) ==> v == 0xFEEDBEAD
                    &&& c == wire::word(false, 0, 0x18, 4) ==> v == self.test
                    &&& c == wire::word(false, 0, 0, 4) ==> v == self.ctrl
                }
            },
            Action::Write { cmd, val } => {
                let c = self.understands(cmd);
                let v = self.understands(val);
                self.ready() ==> {
                    &&& c == wire::word(true, 0, 0x18, 4) ==> next == Chip { test: v, ..self }
                    &&& c == wire::word(true, 0, 0, 4) ==> next == Chip {
                        ctrl: v,
                        wide: v % 2 == 1,
                        ..self
                    }
                    &&& c == wire::word(true, 0, 0x1D, 1) ==> next == Chip {
                        delay: v % 0x100,
                        ..self
                    }
                    &&& c == wire::word(true, 0, 4, 1) ==> next == Chip {
                        errors: self.errors && !(v % 2 == 1 && v / 8 % 2 == 1 && v / 16 % 2 == 1 && v
                            / 128 % 2 == 1),
                        ..self
                    }
                    &&& c == wire::word(true, 0, 6, 2) ==> next == Chip {
                        enabled: v % 0x10000,
                        ..self
                    }
                }
            },
            Action::WriteBuf { .. } | Action::ReadBuf { .. } => true,
        }
    }

    /// The bus is configured: words of 32 bits, the chip's own status words off, a response delay
    /// of four bytes, no error pending.
    pub open spec fn configured(self) -> bool {
        &&& self.ready()
        &&& self.wide
        &&& self.ctrl == 0x0002_04B1
        &&& self.delay == 4
        &&& !self.errors
    }
}

/// A moment of the bring-up: the host, the operation and the chip.
#[verifier::ext_equal]
pub struct InitMoment {
    pub state: BusState,
    pub op: Init,
    pub chip: Chip,
}

impl InitMoment {
    /// Whether `next` can come after this moment.
    pub open spec fn leads_to(self, reply: Reply, next: InitMoment) -> bool {
        &&& self.op.pending() is Some
        &&& self.chip.serves(self.op.pending().unwrap(), reply, next.chip)
        &&& (next.state, next.op) == self.op.step(self.state, reply)
    }

    /// What holds of the `k`th moment of a bring-up.
    spec fn on_track(self, bluetooth: bool, k: int) -> bool {
        let chip = self.chip;
        &&& self.op.bluetooth == bluetooth
        &&& self.op.stage.number() == k
        &&& 1 <= k <= 2 ==> !chip.powered
        &&& k >= 1 ==> chip.off >= 0 && chip.up >= 0
        &&& k >= 2 ==> chip.off >= 20
        &&& k >= 3 ==> chip.powered
        &&& k >= 4 ==> chip.up >= 250
        &&& k >= 1 ==> chip.wide == (k >= 9)
        &&& k >= 6 ==> chip.test == 0x12345678
        &&& k >= 9 ==> chip.ctrl == 0x0002_04B1
        &&& k >= 13 ==> chip.delay == 4
        &&& k >= 14 ==> !chip.errors
        &&& k == 15 ==> self.op.stage == (InitStage::Done { up: true }) && chip.enabled == if bluetooth {
            0x20BEint
        } else {
            0x00BE
        }
    }
}

/// One step of a bring-up keeps it on track.
proof fn lemma_init_step(m: InitMoment, reply: Reply, n: InitMoment, bluetooth: bool, k: int)
    requires
        m.on_track(bluetooth, k),
        m.leads_to(reply, n),
    ensures
        n.on_track(bluetooth, k + 1),
{
    setup::law_bring_up_asks(m.op);
    setup::law_bring_up_course(m.op, m.state, reply);
}

/// The moments of a bring-up, with the replies between them.
pub open spec fn is_init_run(moments: Seq<InitMoment>, replies: Seq<Reply>) -> bool {
    &&& moments.len() == replies.len() + 1
    &&& forall|i: int|
        0 <= i < replies.len() ==> (#[trigger] moments[i]).leads_to(replies[i], moments[i + 1])
}

/// A bring-up stays on track.
proof fn lemma_init_run(moments: Seq<InitMoment>, replies: Seq<Reply>, bluetooth: bool, k: int)
    requires
        is_init_run(moments, replies),
        moments[0].op == (Init { bluetooth, stage: InitStage::PowerOff }),
        0 <= k < moments.len(),
    ensures
        moments[k].on_track(bluetooth, k),
    decreases k,
{
    if k > 0 {
        lemma_init_run(moments, replies, bluetooth, k - 1);
        lemma_init_step(moments[k - 1], replies[k - 1], moments[k], bluetooth, k - 1);
    }
}

/// A chip that works is brought up, from whatever state it was in and whether or not Bluetooth is
/// enabled: the power is on from the third action on, and at the end the bring-up has succeeded,
/// the bus is configured and the interrupts are enabled, that of Bluetooth only where it is asked
/// for.
pub proof fn law_working_chip_comes_up(
    bluetooth: bool,
    moments: Seq<InitMoment>,
    replies: Seq<Reply>,
    k: int,
)
    requires
        is_init_run(moments, replies),
        moments[0].op == (Init { bluetooth, stage: InitStage::PowerOff }),
        0 <= k < moments.len(),
    ensures
        moments.len() <= 16,
        k >= 3 ==> moments[k].chip.powered,
        moments[k].op.pending() is None <==> k == 15,
        k == 15 ==> moments[k].op.stage == (InitStage::Done { up: true }),
        k == 15 ==> moments[k].chip.configured(),
        k == 15 ==> moments[k].chip.enabled == if bluetooth {
            0x20BEint
        } else {
            0x00BE
        },
{
    lemma_init_run(moments, replies, bluetooth, k);
    setup::law_bring_up_asks(moments[k].op);
    if moments.len() > 16 {
        lemma_init_run(moments, replies, bluetooth, 15);
        setup::law_bring_up_asks(moments[15].op);
        assert(moments[15].leads_to(replies[15], moments[16]));
    }
}

/// A chip that is ready but has lost its configuration gets it back: the three writes of a
/// reconfiguration leave the bus configured, with the power, the test register and the enabled
/// interrupts as they were.
pub proof fn law_lost_configuration_comes_back(
    states: Seq<BusState>,
    ops: Seq<Reconfigure>,
    chips: Seq<Chip>,
    replies: Seq<Reply>,
)
    requires
        states.len() == 4 && ops.len() == 4 && chips.len() == 4 && replies.len() == 3,
        ops[0].stage == ReconfigureStage::WriteCtrl,
        chips[0].ready(),
        !chips[0].wide,
        forall|i: int|
            0 <= i < 3 ==> {
                &&& (#[trigger] ops[i]).pending() is Some
                &&& chips[i].serves(ops[i].pending().unwrap(), replies[i], chips[i + 1])
                &&& (states[i + 1], ops[i + 1]) == ops[i].step(states[i], replies[i])
            },
    ensures
        ops[3].pending() is None,
        chips[3].configured(),
        chips[3].test == chips[0].test,
        chips[3].enabled == chips[0].enabled,
{
    setup::law_reconfigure_asks(ops[0]);
    setup::law_reconfigure_course(ops[0], states[0], replies[0]);
    assert(ops[1].stage == ReconfigureStage::SetDelay);
    setup::law_reconfigure_asks(ops[1]);
    setup::law_reconfigure_course(ops[1], states[1], replies[1]);
    assert(ops[2].stage == ReconfigureStage::ClearIrqs);
    setup::law_reconfigure_asks(ops[2]);
    setup::law_reconfigure_course(ops[2], states[2], replies[2]);
    setup::law_reconfigure_asks(ops[3]);
}

/// A self-test of a chip that is configured gives the fixed value and what the test register holds.
pub proof fn law_selftest_of_configured_chip(
    state: BusState,
    chip: Chip,
    first: Reply,
    second: Reply,
    between: Chip,
    after: Chip,
)
    requires
        chip.configured(),
        chip.serves(
            (Selftest { stage: SelftestStage::ReadFixed }).pending().unwrap(),
            first,
            between,
        ),
        between.serves(
            (Selftest { stage: SelftestStage::ReadFixed }).step(state, first).1.pending().unwrap(),
            second,
            after,
        ),
    ensures
        ({
            let (s, op) = (Selftest { stage: SelftestStage::ReadFixed }).step(state, first);
            op.step(s, second).1.stage matches SelftestStage::Done { ro, rw } && ro == 0xFEEDBEAD
                && rw == chip.test
        }),
        after == chip,
{
    setup::law_selftest_reads_both(state, first, second);
}

} // verus!
