//! Verified core of a web content-discovery scanner.
//!
//! The library holds the logic of the scan: candidate-path generation,
//! the bounded-concurrency scheduler, soft-404 baseline calibration,
//! response classification and risk scoring, and status-code filtering.
//! Network I/O, argument parsing and output rendering live outside it.

pub mod analyzer;
pub mod config;
pub mod engine;
pub mod probe;
pub mod scheduler;
pub mod text;
pub mod wordlist;
