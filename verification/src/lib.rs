//! Core of a blockchain fee observer: turns the blocks seen during
//! one run, each a list of transactions with looked-up fee
//! breakdowns, into the flat, ordered sequence of 128-bit fee
//! samples that gets plotted.
//!
//! Per-block assembly lives in [`block`]: a builder records one fee
//! lookup outcome per transaction, keeps the transactions that
//! resolved, skips the ones that failed, and never lets one failure
//! spill over. Fee values and their widening to the sample domain
//! live in [`fee`]; filtering, flattening and chart bounds in
//! [`samples`]; wire-format decoding of transaction bytes in
//! [`hex`].

pub mod block;
pub mod fee;
pub mod hex;
pub mod samples;
