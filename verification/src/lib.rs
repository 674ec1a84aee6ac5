//! Core of a clipboard synchronization engine.
//!
//! The engine keeps the text clipboards of several independent display
//! sessions equal. This crate holds the decision logic: classifying
//! discovery probes, collapsing endpoints that are the same physical
//! clipboard, detecting and propagating content changes, throttling
//! retries by failure density, and the supervisor's watchdog rules.
//! The process that runs the engine performs the actual clipboard and
//! process I/O and feeds the observed values back into these functions.

pub mod dedup;
pub mod discovery;
pub mod endpoint;
pub mod error;
pub mod governor;
pub mod log;
pub mod supervisor;
pub mod watch;
pub mod zombies;
