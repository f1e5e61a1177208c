//! Register addresses, bit masks and sizes of the gSPI bus and of the backplane behind it.

use vstd::prelude::*;

verus! {

/// Direction bit of a command word: the host reads.
pub const READ: bool = false;

/// Direction bit of a command word: the host writes.
pub const WRITE: bool = true;

/// Address mode bit of a command word: the address advances during the transfer.
pub const INC_ADDR: bool = true;

// Functions, the four address spaces a command can select.
pub const FUNC_BUS: u8 = 0;

pub const FUNC_BACKPLANE: u8 = 1;

pub const FUNC_WLAN: u8 = 2;

// Registers of the bus function.
pub const REG_BUS_CTRL: u32 = 0x0;

pub const REG_BUS_RESPONSE_DELAY: u32 = 0x1;

pub const REG_BUS_STATUS_ENABLE: u32 = 0x2;

pub const REG_BUS_INTERRUPT: u32 = 0x04;

pub const REG_BUS_INTERRUPT_ENABLE: u32 = 0x06;

pub const SPI_STATUS_REGISTER: u32 = 0x08;

pub const REG_BUS_TEST_RO: u32 = 0x14;

pub const REG_BUS_TEST_RW: u32 = 0x18;

pub const SPI_RESP_DELAY_F1: u32 = 0x1d;

// Bits of `REG_BUS_CTRL`.
pub const WORD_LENGTH_32: u32 = 0x1;

pub const HIGH_SPEED: u32 = 0x10;

pub const INTERRUPT_POLARITY_HIGH: u32 = 0x20;

pub const WAKE_UP: u32 = 0x80;

// Bits of `REG_BUS_STATUS_ENABLE`.
pub const STATUS_ENABLE: u32 = 0x01;

pub const INTR_WITH_STATUS: u32 = 0x02;

// Bits of `SPI_STATUS_REGISTER`.
pub const STATUS_DATA_NOT_AVAILABLE: u32 = 0x00000001;

pub const STATUS_UNDERFLOW: u32 = 0x00000002;

pub const STATUS_OVERFLOW: u32 = 0x00000004;

pub const STATUS_HOST_CMD_DATA_ERR: u32 = 0x00000080;

pub const STATUS_F2_PKT_AVAILABLE: u32 = 0x00000100;

// Bits of `REG_BUS_INTERRUPT` and `REG_BUS_INTERRUPT_ENABLE`.
pub const IRQ_DATA_UNAVAILABLE: u16 = 0x0001;

pub const IRQ_F2_F3_FIFO_RD_UNDERFLOW: u16 = 0x0002;

pub const IRQ_F2_F3_FIFO_WR_OVERFLOW: u16 = 0x0004;

pub const IRQ_COMMAND_ERROR: u16 = 0x0008;

pub const IRQ_DATA_ERROR: u16 = 0x0010;

pub const IRQ_F2_PACKET_AVAILABLE: u16 = 0x0020;

pub const IRQ_F1_OVERFLOW: u16 = 0x0080;

pub const IRQ_F1_INTR: u16 = 0x2000;

/// What `REG_BUS_TEST_RO` holds.
pub const FEEDBEAD: u32 = 0xFEEDBEAD;

/// What is written to `REG_BUS_TEST_RW` and read back.
pub const TEST_PATTERN: u32 = 0x12345678;

/// Response delay of backplane reads, in bytes.
pub const WHD_BUS_SPI_BACKPLANE_READ_PADD_SIZE: u8 = 4;

// Registers of the backplane function.
pub const REG_BACKPLANE_BACKPLANE_ADDRESS_LOW: u32 = 0x1000A;

pub const REG_BACKPLANE_BACKPLANE_ADDRESS_MID: u32 = 0x1000B;

pub const REG_BACKPLANE_BACKPLANE_ADDRESS_HIGH: u32 = 0x1000C;

pub const REG_BACKPLANE_FRAME_CONTROL: u32 = 0x1000D;

/// Terminates the read frame that is open on the WLAN function.
pub const FRAME_CONTROL_ABORT_F2_READ: u8 = 0x01;

/// Bytes of the backplane that are visible at once.
pub const BACKPLANE_WINDOW_SIZE: usize = 0x8000;

/// The part of a backplane address that selects a byte within the window.
pub const BACKPLANE_ADDRESS_MASK: u32 = 0x7FFF;

/// Asks the bridge to move data in words rather than a byte at a time.
pub const BACKPLANE_ADDRESS_32BIT_FLAG: u32 = 0x08000;

/// The largest backplane transfer, in bytes.
pub const BACKPLANE_MAX_TRANSFER_SIZE: usize = 64;

} // verus!
