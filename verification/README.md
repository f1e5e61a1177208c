# cyw43_spi

The host side of the gSPI bus of the CYW43 family of Wi-Fi chips, verified with Verus.

The library performs no I/O. Each operation on the bus is a state machine: `action` says what the
hardware has to do next, `resume` takes the reply and updates the bus. The contract of `resume`
gives the next state of the bus and of the operation exactly.

- `src/frame.rs`: the command word of a transfer.
- `src/buffer.rs`: byte buffers that are moved in words.
- `src/oplog.rs`, `src/dump.rs`: the record of the last transactions, and how it is shown.
- `src/util.rs`: alignment, log throttling, bounded polling.
- `src/io.rs`: what operations ask of the hardware.
- `src/bus.rs`: what the host knows about the bus: the backplane window, the status, the counts.
- `src/register.rs`, `src/bulk.rs`, `src/wlan.rs`, `src/setup.rs`: the operations.
- `src/device.rs`: a model of the device, and the proof that reads give back what writes wrote.
- `app/`: the asynchronous driver that performs the actions on a real power pin and SPI link.

Public proof functions whose names begin with `law_` state what holds of the library as a whole.
