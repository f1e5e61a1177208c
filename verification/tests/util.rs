use cyw43_spi::io::Error;
use cyw43_spi::util::{is_aligned, round_down, round_up, try_until, PollStage, Throttle, TryUntil};

#[test]
fn alignment() {
    assert!(is_aligned(0x8000, 0x8000));
    assert!(!is_aligned(0x8004, 8));
    assert!(is_aligned(5, 1));
    assert!(is_aligned(8, 7));
    assert!(!is_aligned(7, 7));
}

#[test]
fn rounding() {
    assert_eq!(round_down(0x1237, 4), 0x1234);
    assert_eq!(round_down(u32::MAX, 0x8000_0000), 0x8000_0000);
    assert_eq!(round_up(0x1231, 4), 0x1234);
    assert_eq!(round_up(0x1234, 4), 0x1234);
    assert_eq!(round_up(0, 64), 0);
    assert_eq!(round_up(u32::MAX, 1), u32::MAX);
}

#[test]
fn throttle_reports_first_few_then_one_in_every() {
    let mut t = Throttle::every(10);
    let mut reported = Vec::new();
    for _ in 0..45 {
        if let Some(n) = t.admit_one() {
            reported.push(n);
        }
    }
    assert_eq!(reported, vec![1, 2, 3, 4, 5, 6, 7, 8, 10, 20, 30, 40]);
    assert_eq!(t.seen, 45);
}

#[test]
fn throttle_rates() {
    assert_eq!(Throttle::new(), Throttle { seen: 0, every: 4096 });
    assert_eq!(Throttle::every(64), Throttle { seen: 0, every: 64 });
    let mut t = Throttle { seen: 4095, every: 4096 };
    assert_eq!(t.admit_one(), Some(4096));
    assert_eq!(t.admit_one(), None);
}

fn poll(mut op: TryUntil, answers: &[bool]) -> (usize, usize, Result<(), Error>) {
    let (mut polls, mut ticks) = (0, 0);
    loop {
        match op.stage {
            PollStage::Poll => {
                op.polled(answers[polls]);
                polls += 1;
            }
            PollStage::Tick => {
                op.ticked();
                ticks += 1;
            }
            PollStage::Done { .. } => break,
        }
    }
    (polls, ticks, op.result().unwrap())
}

#[test]
fn poll_lasts_as_long_as_the_duration() {
    // Three milliseconds and a bit, in microseconds.
    let op = try_until(3_999);
    assert_eq!(op.left, 3);
    assert_eq!(poll(op, &[false, false, false, true]), (3, 3, Err(Error)));
}

#[test]
fn poll_ends_when_the_condition_holds() {
    assert_eq!(poll(try_until(5_000), &[false, true]), (2, 1, Ok(())));
    assert_eq!(poll(try_until(1_000), &[true]), (1, 0, Ok(())));
}

#[test]
fn poll_of_less_than_a_tick_fails() {
    assert_eq!(poll(try_until(999), &[]), (0, 0, Err(Error)));
    assert_eq!(try_until(0).result(), Some(Err(Error)));
    assert_eq!(try_until(1_000).result(), None);
}
