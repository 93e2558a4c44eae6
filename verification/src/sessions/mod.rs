//! Sessions of other harnesses, read from their JSONL transcripts.

pub mod counting;
pub mod entries;
pub mod finding;
pub mod laws;
pub mod recent;
pub mod records;
pub mod scan;
pub mod tree;
pub mod walk;
