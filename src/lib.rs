//! Selecting fields out of text lines: a line is split into fields by a
//! separator pattern, and each `Choice` picks a single field or a range of
//! fields (possibly open-ended or given backwards) out of them.

pub mod choice;
pub mod config;
pub mod laws;
pub mod output;
pub mod parse;
pub mod separator;
