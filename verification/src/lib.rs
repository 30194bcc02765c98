//! Core of an interactive process-control debugger, together with a few
//! small verified container and utility modules.
//!
//! The debugger core launches a traced target process (the "inferior"),
//! plants one-byte trap instructions over breakpoint addresses, intercepts
//! the resulting stops, restores and re-arms the patched bytes around each
//! single step, and reconstructs call stacks by walking saved frame
//! pointers.  The byte-patch arithmetic, the breakpoint bookkeeping, the
//! resolution of location specifiers and the session state machine are all
//! verified; the raw process-control system calls are trusted wrappers
//! around the `nix` crate.

pub mod command;
pub mod debugger;
pub mod error;
pub mod inferior;
pub mod linked_list;
pub mod list;
pub mod patch;
pub mod primes;
pub mod resolver;
pub mod stack;
pub mod strutil;
pub mod sys;
pub mod warmup;
pub mod words;

pub use patch::align_addr_to_word;
