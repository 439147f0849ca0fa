//! Throughput measurement over a stream of text lines.
//!
//! The library holds the verified core of a small rate-reporting tool:
//! monotonic timestamps and durations, the line-rate counter (one aggregate
//! rate at end of stream), the value-rate differentiator (one instantaneous
//! rate per consecutive pair of numeric lines), decimal parsing and
//! rendering, and the decision rules for validating a file argument.
//! Reading lines, capturing the clock and printing stay outside: callers
//! hand in line bytes and timestamps and print the returned report bytes.

pub mod lines;
pub mod numbers;
pub mod paths;
pub mod rate;
pub mod text;
pub mod timing;
pub mod value;
