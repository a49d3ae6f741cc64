//! An emulator core for a classic 8-bit microprocessor, together with the
//! waveform sound generator that sits beside it on the arcade board.
//!
//! The processor model lives in [`z80`]; it fetches, decodes and executes
//! machine instructions against a caller-supplied [`bus::Bus`], reproducing
//! the exact register, flag and timing behaviour of the hardware. The host
//! owns the bus and drives execution one instruction at a time through
//! [`exec::z80_step`].

#![allow(non_camel_case_types)]
#![allow(non_snake_case)]

pub mod alu;
pub mod bus;
pub mod exec;
pub mod flags;
pub mod laws;
pub mod model;
pub mod wsg;
pub mod z80;

pub use flags::GET_BIT;
pub use flags::carry;
pub use flags::parity;
