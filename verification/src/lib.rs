//! Storage usage report for a document database server.
//!
//! The library holds the rules of the report: how a raw statistics record
//! becomes a collection's figures, how the figures of one database are
//! gathered, summed and ranked, and how byte and item counts are abbreviated
//! for a reader. Talking to the server and printing are left to the caller.

pub mod collector;
pub mod decimal;
pub mod double;
pub mod history;
pub mod protocol;
pub mod ranking;
pub mod record;
pub mod render;
pub mod report;
pub mod units;
