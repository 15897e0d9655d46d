//! Concurrent enumeration engine for wordlist-driven reconnaissance.
//!
//! The engine turns a wordlist into a bounded set of concurrent probe
//! dispatches, classifies each probe's outcome, tracks live progress, and
//! aggregates final statistics. Protocol clients, file reading and terminal
//! rendering live outside this crate; the engine sees only plain values.

pub mod classify;
pub mod compose;
pub mod config;
pub mod engine;
pub mod http;
pub mod progress;
pub mod retry;
pub mod outcome;
pub mod text;
pub mod wordlist;
