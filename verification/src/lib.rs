//! A cache side channel between two processes, reduced to its decisions.
//!
//! A victim flushes one line of a buffer it owns, waits, and times its own
//! reload of that line: a reload that comes too fast means that someone else
//! touched the buffer in between. An attacker finds that buffer in the
//! victim's address space and keeps reading its first word. This library
//! holds what both sides decide and compute; timing, memory and the terminal
//! belong to the programs built on it.

pub mod detector;
pub mod history;
pub mod numeral;
pub mod options;
pub mod probe;
pub mod stats;
pub mod text;
pub mod window;
