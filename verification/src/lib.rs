//! The gSPI bus of the CYW43 family of Wi-Fi chips, as seen from the host.
//!
//! Nothing here touches hardware. An operation on the bus, such as the read of a register or of a
//! packet, is a value that says in `action` what it waits for and takes what came back in `resume`.
//! The state that operations share is in `bus::SpiBus`.

pub mod buffer;
pub mod bulk;
pub mod bus;
pub mod chip;
pub mod consts;
pub mod device;
pub mod dump;
pub mod fifo;
pub mod frame;
pub mod io;
pub mod oplog;
pub mod register;
pub mod setup;
pub mod util;
pub mod wire;
pub mod wlan;
