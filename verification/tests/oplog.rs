use cyw43_spi::consts::{
    STATUS_DATA_NOT_AVAILABLE, STATUS_F2_PKT_AVAILABLE, STATUS_HOST_CMD_DATA_ERR, STATUS_OVERFLOW,
    STATUS_UNDERFLOW,
};
use cyw43_spi::oplog::{OpLog, OP_LOG_LEN, UNINSTRUMENTED};

#[test]
fn new_log_is_empty() {
    let log = OpLog::new();
    assert_eq!(log.count(), 0);
    assert_eq!(log.get(0), (0, 0));
    assert_eq!(log.get(100), (0, 0));
}

#[test]
fn log_keeps_the_newest() {
    let mut log = OpLog::new();
    for i in 0..40u32 {
        log.record(i, UNINSTRUMENTED);
    }
    assert_eq!(log.count(), OP_LOG_LEN);
    for i in 0..32usize {
        assert_eq!(log.get(i), (i as u32 + 8, 0));
    }
    assert_eq!(log.get(32), (8, 0));
}

#[test]
fn log_before_it_is_full() {
    let mut log = OpLog::new();
    log.record(7, 0x100);
    log.record(8, 0);
    assert_eq!(log.count(), 2);
    assert_eq!(log.get(0), (7, 0x100));
    assert_eq!(log.get(1), (8, 0));
}

#[test]
fn every_error_bit_freezes() {
    for bit in [
        STATUS_DATA_NOT_AVAILABLE,
        STATUS_UNDERFLOW,
        STATUS_OVERFLOW,
        STATUS_HOST_CMD_DATA_ERR,
    ] {
        let mut log = OpLog::new();
        log.record(1, STATUS_F2_PKT_AVAILABLE);
        log.record(2, bit | STATUS_F2_PKT_AVAILABLE);
        log.record(3, 0);
        assert_eq!(log.count(), 2);
        assert_eq!(log.get(1), (2, bit | 0x100));
    }
}

#[test]
fn frozen_log_holds_the_run_up() {
    let mut log = OpLog::new();
    for i in 0..50u32 {
        log.record(i, if i == 40 { 1 } else { 0 });
    }
    assert_eq!(log.count(), 32);
    assert_eq!(log.get(31), (40, 1));
    assert_eq!(log.get(0), (9, 0));
}

#[test]
fn arming_starts_anew() {
    let mut log = OpLog::new();
    log.record(1, 1);
    log.arm();
    assert_eq!(log.count(), 0);
    log.record(2, 0);
    assert_eq!(log.count(), 1);
    assert_eq!(log.get(0), (2, 0));
}
