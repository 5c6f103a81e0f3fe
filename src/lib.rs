//! A counter program: wire decoding of instructions, account validation,
//! and the state transitions that initialize and increment a counter held
//! in an account's data.

pub mod bytes;
pub mod error;
pub mod instruction;
pub mod state;
pub mod address;
pub mod processor;
