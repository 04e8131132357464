//! A verified CHIP-8 instruction interpreter.
//!
//! The crate models the complete machine state of the CHIP-8 virtual
//! machine (memory, registers, stack, timers, frame buffer, key pad) and
//! executes one instruction per step, with the semantics of every
//! instruction stated as a specification and proved of the executable code.
//!
//! Loading a program image from storage, rendering the frame buffer,
//! pacing the two 60 Hz timers and capturing key input are the caller's
//! business; the interpreter only reads and writes the in-memory buffers
//! those collaborators populate or consume.

pub mod cpu;
pub mod decode;
pub mod exec;
pub mod laws;

pub use cpu::Cpu;
pub use cpu::CpuView;
pub use cpu::Fault;
pub use decode::Instr;
