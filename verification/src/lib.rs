//! A verified interpreter for the CHIP-8 virtual machine: the machine state,
//! the instruction decoder, and the per-opcode semantics, with the behaviour
//! of every instruction pinned down by a specification-level step function.

pub mod builder;
pub mod decode;
pub mod exec;
pub mod laws;
pub mod machine;
pub mod semantics;

pub use builder::CrispBuilder;
pub use machine::{Crisp, CrispError, Status, ISA};
