//! Concurrent multi-format archive extractor: the verified core.
//!
//! The modules below hold the decisions of the extraction pipeline (file
//! classification, output-path conventions, password trial, scheduling and
//! bookkeeping) as functions on plain values with Verus contracts. Reading
//! and writing files, running subprocesses and drawing progress bars happen
//! in the application around this crate, which hands results back here.

pub mod cli;
pub mod config;
pub mod error;
pub mod extractors;
pub mod fs;
pub mod progress;
pub mod runner;
pub mod text;
pub mod utils;
