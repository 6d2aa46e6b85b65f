//! A CHIP-8 virtual machine: memory with a memory-mapped display, registers, call stack,
//! timers, keyboard latch, instruction decoding and execution.
//!
//! The machine does no input or output of its own. Whoever drives it hands the current
//! time and a snapshot of the keys to each cycle, prints what the display renders, and
//! waits between the cycles.
//!
//! - `system` holds the parts of the machine and the cycle that ties them together.
//! - `program` holds programs, instructions and their execution.
//! - `semantics` says what each instruction and each cycle makes of a machine state.
//! - `laws` holds what is proved of all states, words and sequences of updates.
//! - `text` builds the texts that the parts are written as.
//! - `utils` composes digits and bytes.
//! - `random` is the door to the random number generator, and taken on trust.
//!
//! The contracts are stated over the mathematical views of the parts, and the verifier
//! proves each function against its contract.

pub mod laws;
pub mod program;
pub mod random;
pub mod semantics;
pub mod system;
pub mod text;
pub mod utils;
