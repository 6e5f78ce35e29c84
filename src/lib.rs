//! Driver logic for a 16-channel, 12-bit greyscale constant-current LED
//! driver (TLC5940 family).
//!
//! The library owns the channel buffer and turns it into an exact,
//! verified sequence of signal operations for one of three transports:
//! bit-banged data with a software greyscale clock, bit-banged data with a
//! free-running hardware greyscale clock, or a bulk serial transfer of a
//! packed byte buffer. A host executes the operations on its pins and
//! peripherals.

pub mod controller;
pub mod packing;
pub mod signal;

pub use controller::{
    write_in_progress, Framing, Strategy, TlcController, Transaction, Transport, GS_CYCLE, RDSR,
    WIP, WREN, WRITE,
};
pub use packing::{channel_bit_value, pack_channels, stream_bit_value, BITS_PER_CHANNEL};
pub use signal::{disable_outputs, enable_outputs, BlankDrive, Duty, Line, Op};
