//! Hardware-facing core of a small freestanding kernel: a text console
//! driver over volatile display cells, a polled serial transmitter and the
//! trap table with its two handlers.
//!
//! The console writes to a display surface that it owns. The serial
//! driver and the trap table decide what is to be done with the port and
//! the processor, and leave the privileged instructions to their caller.

pub mod interrupts;
pub mod screen;
pub mod serial;
pub mod text;
pub mod vga;
