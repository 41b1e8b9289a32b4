//! An AArch64 user-mode emulator core: CPU state, guest memory, instruction
//! semantics, system-call decisions and binary-image layout.

pub mod cpu;
pub mod decoder;
pub mod interp;
pub mod loader;
pub mod memory;
pub mod syscall;
pub mod text;
pub mod vfs;

pub use cpu::CpuContext;
pub use loader::ElfLoader;

use vstd::prelude::*;
use crate::text::{concat, dec_text, dec_text_spec, hex_text, hex_text_spec};

verus! {

/// Errors reported by the emulator.
#[derive(Debug)]
pub enum Error {
    LoadError(String),
    MemoryError(String),
    DecodeError { pc: u64, reason: String },
    UnhandledSyscall(u64),
    InterpreterError { pc: u64, reason: String },
}

/// The text an error displays.
pub open spec fn error_text(e: Error) -> Seq<char> {
    match e {
        Error::LoadError(s) => "Failed to load binary: "@ + s@,
        Error::MemoryError(s) => "Memory error: "@ + s@,
        Error::DecodeError { pc, reason } => "Instruction decode error at PC "@ + hex_text_spec(pc as nat) + ": "@
            + reason@,
        Error::UnhandledSyscall(n) => "Unhandled syscall number: "@ + dec_text_spec(n as nat),
        Error::InterpreterError { pc, reason } => "Interpreter error at PC "@ + hex_text_spec(pc as nat) + ": "@
            + reason@,
    }
}

impl Error {
    /// The error's display text.
    pub fn message(&self) -> (s: String)
        ensures
            s@ == error_text(*self),
    {
        match self {
            Error::LoadError(m) => concat("Failed to load binary: ", m.as_str()),
            Error::MemoryError(m) => concat("Memory error: ", m.as_str()),
            Error::DecodeError { pc, reason } => {
                let mut s = concat("Instruction decode error at PC ", hex_text(*pc).as_str());
                s.push_str(": ");
                s.push_str(reason.as_str());
                s
            },
            Error::UnhandledSyscall(n) => concat("Unhandled syscall number: ", dec_text(*n).as_str()),
            Error::InterpreterError { pc, reason } => {
                let mut s = concat("Interpreter error at PC ", hex_text(*pc).as_str());
                s.push_str(": ");
                s.push_str(reason.as_str());
                s
            },
        }
    }
}

pub type Result<T> = core::result::Result<T, Error>;

} // verus!
