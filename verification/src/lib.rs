//! Batch background removal for selfie images: which files of a directory
//! are processed, where each result is written, how a bounded pool of
//! workers is scheduled, and the progress text that a run reports.
pub mod text;
pub mod path;
pub mod engine;
pub mod batch;
pub mod pool;
pub mod report;
pub mod cli;
