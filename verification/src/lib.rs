//! Logic of a small embedded Rust course: a pseudo-random code generator and
//! the decoder built on it, a number guessing game, a UART command
//! interpreter with CPU load accounting, and a rotating LED text printer.

pub mod codgen;
pub mod decoder;
pub mod parse;
pub mod guess;
pub mod console;
pub mod regs;
pub mod blinky;
pub mod printer;
pub mod draft;
