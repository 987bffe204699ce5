//! Driver for the memory-mapped USART peripherals of the ATmega2560.
//!
//! The driver itself never touches memory: every hardware access goes through
//! a [`regfile::RegisterFile`] capability, and the driver's contracts pin down
//! the exact sequence of register reads and writes each operation performs.
//! A simulated register file, [`regfile::SimRegisterFile`], lets tests observe
//! that sequence; a production binding supplies volatile memory access.

pub mod regfile;
pub mod register;
pub mod serial;
