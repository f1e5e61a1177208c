//! Alignment arithmetic, log throttling and bounded polling.

use vstd::arithmetic::power2::pow2;
use vstd::prelude::*;

use crate::io::Error;

verus! {

/// Whether `a` is one of 1, 2, 4, 8 and so on.
pub open spec fn power_of_two(a: u32) -> bool {
    exists|k: nat| a == #[trigger] pow2(k)
}

/// The bits of `x` below a power of two are its remainder.
proof fn lemma_low_bits(x: u32, a: u32)
    requires
        power_of_two(a),
    ensures
        a >= 1,
        x & ((a - 1) as u32) == x % a,
{
    let k = choose|k: nat| a == #[trigger] pow2(k);
    vstd::arithmetic::power2::lemma_pow2_pos(k);
    if k >= 32 {
        vstd::arithmetic::power2::lemma2_to64();
        if k > 32 {
            vstd::arithmetic::power2::lemma_pow2_strictly_increases(32, k);
        }
    }
    vstd::bits::lemma_u32_low_bits_mask_is_mod(x, k);
}

/// Whether `a` has no bit below `x`; for a power of two `x`, whether `x` divides `a`.
pub fn is_aligned(a: u32, x: u32) -> (r: bool)
    requires
        x >= 1,
    ensures
        r == (a & ((x - 1) as u32) == 0),
        power_of_two(x) ==> r == (a % x == 0),
{
    proof {
        if power_of_two(x) {
            lemma_low_bits(a, x);
        }
    }
    (a & (x - 1)) == 0
}

/// The greatest multiple of `a` that does not exceed `x`.
pub fn round_down(x: u32, a: u32) -> (r: u32)
    requires
        power_of_two(a),
    ensures
        r % a == 0,
        r <= x < r + a,
{
    proof {
        lemma_low_bits(x, a);
        let m: u32 = (a - 1) as u32;
        assert(x & !m == x - (x & m)) by (bit_vector);
        vstd::arithmetic::div_mod::lemma_fundamental_div_mod(x as int, a as int);
        vstd::arithmetic::div_mod::lemma_mod_multiples_basic(x as int / a as int, a as int);
        vstd::arithmetic::mul::lemma_mul_is_commutative(a as int, x as int / a as int);
    }
    x & !(a - 1)
}

/// The least multiple of `a` that is not below `x`.
pub fn round_up(x: u32, a: u32) -> (r: u32)
    requires
        power_of_two(a),
        x + (a - 1) <= u32::MAX,
    ensures
        r % a == 0,
        r < x + a,
        x <= r,
{
    proof {
        lemma_low_bits(x, a);
    }
    round_down(x + (a - 1), a)
}

/// Whether the `n`th occurrence of a condition is one to report, given that one in `every` is.
pub open spec fn reported(n: int, every: u32) -> bool {
    n <= Throttle::FIRST || n % every as int == 0
}

/// Reports the first few of a repeating condition, then one in `every` after that.
#[derive(Clone, Copy, PartialEq, Eq, Structural, Debug)]
pub struct Throttle {
    pub seen: u32,
    pub every: u32,
}

impl Throttle {
    /// How many occurrences are reported before the throttle sets in.
    pub const FIRST: u32 = 8;

    /// There is room to count one more occurrence, and it is decided whether to report it.
    pub open spec fn ready(self) -> bool {
        &&& self.seen < u32::MAX
        &&& self.seen < Self::FIRST || self.every != 0
    }

    /// The throttle after one more occurrence.
    pub open spec fn counted(self) -> Throttle {
        Throttle { seen: (self.seen + 1) as u32, every: self.every }
    }

    /// What one more occurrence is reported as: its number, or nothing.
    pub open spec fn report(self) -> Option<u32> {
        if reported(self.seen + 1, self.every) {
            Some((self.seen + 1) as u32)
        } else {
            None
        }
    }

    /// A throttle for a condition that can occur on every poll.
    pub fn new() -> (r: Throttle)
        ensures
            r == (Throttle { seen: 0, every: 4096 }),
    {
        Self::every(4096)
    }

    /// A throttle that reports one in `every` after the first few.
    pub fn every(every: u32) -> (r: Throttle)
        ensures
            r == (Throttle { seen: 0, every }),
    {
        Throttle { seen: 0, every }
    }

    /// Whether this occurrence should be logged, and how many have been seen.
    pub fn admit_one(&mut self) -> (r: Option<u32>)
        requires
            old(self).ready(),
        ensures
            *final(self) == old(self).counted(),
            r == old(self).report(),
    {
        self.seen = self.seen + 1;
        if self.seen <= Self::FIRST || self.seen % self.every == 0 {
            Some(self.seen)
        } else {
            None
        }
    }
}

/// Past the first few, of any `every` consecutive occurrences exactly one is reported.
pub proof fn law_one_in_every(n: int, every: u32)
    requires
        n >= Throttle::FIRST,
        every >= 1,
    ensures
        exists|k: int| n < k <= n + every && #[trigger] reported(k, every),
        forall|j: int, k: int|
            n < j <= n + every && n < k <= n + every && #[trigger] reported(j, every)
                && #[trigger] reported(k, every) ==> j == k,
{
    let e = every as int;
    let k = n + e - n % e;
    vstd::arithmetic::div_mod::lemma_fundamental_div_mod(n, e);
    vstd::arithmetic::mul::lemma_mul_is_commutative(e, n / e);
    vstd::arithmetic::mul::lemma_mul_is_distributive_add_other_way(e, n / e, 1);
    vstd::arithmetic::div_mod::lemma_mod_multiples_basic(n / e + 1, e);
    assert(k == (n / e + 1) * e);
    assert(reported(k, every));
    assert forall|i: int, j: int|
        n < i <= n + every && n < j <= n + every && #[trigger] reported(i, every)
            && #[trigger] reported(j, every) implies i == j by {
        vstd::arithmetic::div_mod::lemma_fundamental_div_mod(i, e);
        vstd::arithmetic::div_mod::lemma_fundamental_div_mod(j, e);
        let (p, q) = (i / e, j / e);
        assert(i == e * p && j == e * q);
        assert(-e < e * p - e * q < e);
        assert(p == q) by (nonlinear_arith)
            requires
                e >= 1,
                -e < e * p - e * q < e,
        ;
    }
}

/// How many ticks of the clock make a millisecond.
pub const TICKS_PER_MILLI: u64 = 1000;

/// Calls `embassy_time::Duration::from_millis` and takes the tick count of the result.
///
/// The duration is `millis * TICK_HZ / 1000` ticks, rounded up. The clock runs at a `TICK_HZ` of
/// one million, which the `std` feature of the crate fixes, so nothing is rounded. The product is
/// computed with 64 bits, so a number of milliseconds that is too large for it is left out.
#[verifier::external_body]
fn millis_to_ticks(millis: u64) -> (ticks: u64)
    requires
        millis * TICKS_PER_MILLI <= u64::MAX,
    ensures
        ticks == millis * TICKS_PER_MILLI,
{
    embassy_time::Duration::from_millis(millis).as_ticks()
}

/// How far a bounded poll has come.
#[derive(Clone, Copy, PartialEq, Eq, Structural, Debug)]
pub enum PollStage {
    /// The condition is to be looked at.
    Poll,
    /// The condition did not hold; the next tick is to be waited for.
    Tick,
    /// The condition held, or time ran out.
    Done { held: bool },
}

/// A poll of a condition, once a millisecond, for a limited time.
#[derive(Clone, Copy, PartialEq, Eq, Structural, Debug)]
pub struct TryUntil {
    /// How often the condition may still be looked at.
    pub left: u64,
    pub stage: PollStage,
}

impl TryUntil {
    /// There is something left to do until the poll is done.
    pub open spec fn wf(self) -> bool {
        self.stage is Done || self.left >= 1
    }

    /// The poll that looks at the condition `n` times at most.
    pub open spec fn times(n: u64) -> TryUntil {
        TryUntil {
            left: n,
            stage: if n == 0 {
                PollStage::Done { held: false }
            } else {
                PollStage::Poll
            },
        }
    }

    /// The poll after the condition was looked at.
    pub open spec fn after_poll(self, held: bool) -> TryUntil {
        TryUntil {
            stage: if held {
                PollStage::Done { held: true }
            } else {
                PollStage::Tick
            },
            ..self
        }
    }

    /// The poll after a tick.
    pub open spec fn after_tick(self) -> TryUntil {
        Self::times((self.left - 1) as u64)
    }

    /// The poll after the condition was looked at a number of times, each time it did not hold
    /// followed by a tick.
    pub open spec fn run(self, answers: Seq<bool>) -> TryUntil
        decreases answers.len(),
    {
        if self.stage is Done || answers.len() == 0 {
            self
        } else if answers[0] {
            self.after_poll(true)
        } else {
            self.after_poll(false).after_tick().run(answers.drop_first())
        }
    }

    /// Takes the answer of a look at the condition.
    pub fn polled(&mut self, held: bool)
        requires
            old(self).wf(),
            old(self).stage == PollStage::Poll,
        ensures
            final(self).wf(),
            *final(self) == old(self).after_poll(held),
    {
        if held {
            self.stage = PollStage::Done { held: true };
        } else {
            self.stage = PollStage::Tick;
        }
    }

    /// Takes note that a tick has passed.
    pub fn ticked(&mut self)
        requires
            old(self).wf(),
            old(self).stage == PollStage::Tick,
        ensures
            final(self).wf(),
            *final(self) == old(self).after_tick(),
    {
        self.left = self.left - 1;
        if self.left == 0 {
            self.stage = PollStage::Done { held: false };
        } else {
            self.stage = PollStage::Poll;
        }
    }

    /// How the poll ended, once it has.
    pub fn result(&self) -> (r: Option<Result<(), Error>>)
        ensures
            r == (match self.stage {
                PollStage::Done { held } => Some(
                    if held {
                        Ok(())
                    } else {
                        Err(Error)
                    },
                ),
                _ => None,
            }),
    {
        match self.stage {
            PollStage::Done { held } => if held {
                Some(Ok(()))
            } else {
                Some(Err(Error))
            },
            _ => None,
        }
    }
}

/// Starts to poll a condition once a millisecond for `duration` ticks of the clock.
pub fn try_until(duration: u64) -> (r: TryUntil)
    ensures
        r.wf(),
        r == TryUntil::times(duration / TICKS_PER_MILLI),
{
    let tick: u64 = millis_to_ticks(1);
    let ticks: u64 = duration / tick;
    if ticks == 0 {
        TryUntil { left: 0, stage: PollStage::Done { held: false } }
    } else {
        TryUntil { left: ticks, stage: PollStage::Poll }
    }
}

/// A poll that may look `n` times succeeds if and only if the condition holds at one of the first
/// `n` looks.
pub proof fn law_try_until(n: u64, answers: Seq<bool>)
    requires
        answers.len() >= n,
    ensures
        TryUntil::times(n).run(answers).stage == (PollStage::Done {
            held: exists|i: int| 0 <= i < n && #[trigger] answers[i],
        }),
    decreases n,
{
    if n > 0 && !answers[0] {
        let rest = answers.drop_first();
        let m = (n - 1) as u64;
        law_try_until(m, rest);
        if exists|i: int| 0 <= i < n && #[trigger] answers[i] {
            let i = choose|i: int| 0 <= i < n && #[trigger] answers[i];
            assert(rest[i - 1]);
        }
        if exists|i: int| 0 <= i < m && #[trigger] rest[i] {
            let i = choose|i: int| 0 <= i < m && #[trigger] rest[i];
            assert(answers[i + 1]);
        }
    }
}

/// An occurrence is reported, with its number, if it is one of the first eight or its number is a
/// multiple of the rate; it is counted either way.
pub proof fn law_throttle_reports(t: Throttle)
    ensures
        t.ready() == (t.seen < 0xFFFF_FFFF && (t.seen < 8 || t.every > 0)),
        t.ready() ==> t.counted().seen == t.seen + 1,
        t.counted().every == t.every,
        t.ready() ==> (t.report() is Some <==> t.seen < 8 || (t.seen + 1) % (t.every as int) == 0),
        t.ready() && t.report() is Some ==> t.report().unwrap() == t.seen + 1,
{
}

/// A look that finds the condition ends the poll; one that does not is followed by a tick, and a
/// tick by a look for as long as there are looks left.
pub proof fn law_looks_and_ticks(op: TryUntil)
    requires
        op.left >= 1,
    ensures
        op.after_poll(true).stage == (PollStage::Done { held: true }),
        op.after_poll(false).stage == PollStage::Tick,
        op.after_poll(false).left == op.left,
        op.after_tick().left == op.left - 1,
        op.left > 1 ==> op.after_tick().stage == PollStage::Poll,
        op.left == 1 ==> op.after_tick().stage == (PollStage::Done { held: false }),
{
}

/// A poll that may look `n` times goes on while fewer looks have been made and none found the
/// condition.
pub proof fn law_poll_goes_on(n: u64, answers: Seq<bool>)
    requires
        answers.len() < n,
        forall|i: int| 0 <= i < answers.len() ==> !(#[trigger] answers[i]),
    ensures
        TryUntil::times(n).run(answers).stage == PollStage::Poll,
        TryUntil::times(n).run(answers).left == n - answers.len(),
    decreases n,
{
    if answers.len() > 0 {
        let rest = answers.drop_first();
        assert forall|i: int| 0 <= i < rest.len() implies !(#[trigger] rest[i]) by {
            assert(rest[i] == answers[i + 1]);
        }
        law_poll_goes_on((n - 1) as u64, rest);
    }
}

/// A duration of ticks of a microsecond has room for one look per whole millisecond.
pub proof fn law_one_look_per_millisecond(duration: u64)
    ensures
        TryUntil::times(duration / TICKS_PER_MILLI).left == duration / 1000,
        TryUntil::times(duration / TICKS_PER_MILLI).stage is Done <==> duration < 1000,
        TryUntil::times(duration / TICKS_PER_MILLI).stage is Tick == false,
{
}

/// Every power of two that a word can hold is one.
pub proof fn law_every_power_of_two(k: nat)
    requires
        k < 32,
    ensures
        pow2(k) <= u32::MAX,
        power_of_two(pow2(k) as u32),
{
    vstd::arithmetic::power2::lemma2_to64();
    vstd::arithmetic::power2::lemma_pow2_strictly_increases(k, 32);
}

} // verus!
