//! Core of a user-mode debugger for 64-bit PE targets: hardware breakpoints,
//! in-memory PE parsing, symbol lookup, x64 stack unwinding, the command
//! grammar and the decisions of the debug loop.
//!
//! Everything here works on plain values. Reading the target, waiting for
//! debug events and talking to the console are left to the host program,
//! which reaches target memory through [`memory::MemorySource`].

pub mod error;
pub mod bits;
pub mod text;
pub mod memory;
pub mod snapshot;
pub mod reader;
pub mod registers;
pub mod pe;
pub mod symbols;
pub mod module;
pub mod process;
pub mod name_resolution;
pub mod stack;
pub mod prolog;
pub mod breakpoint;
pub mod source;
pub mod event;
pub mod command;
pub mod eval;
pub mod unassemble;
pub mod cmdline;
pub mod session;
