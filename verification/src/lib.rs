//! Marshaling of OS strings and paths between a host process and the
//! simulated address space of an interpreted target program.
//!
//! Interpreted programs exchange strings and filesystem paths with the
//! emulated operating system in the target's native representation:
//! null-terminated byte sequences on Unix-style targets, null-terminated
//! 16-bit-code-unit sequences on Windows-style targets. The host keeps its
//! own native representation, which may be byte-oriented or wide-oriented.
//! This crate converts between the two in both directions, rewrites path
//! separators when host and target disagree, and transfers the encoded
//! units into and out of simulated memory without ever reading past a
//! terminator or writing past a caller-declared capacity.

pub mod codec;
pub mod marshal;
pub mod memory;
pub mod sep;
pub mod types;
pub mod utf16;
