//! A verified engine for benchmarking proxy candidates: parse a candidate
//! list and a target descriptor, gate each candidate on measured latency and
//! throughput, accumulate the admitted outcomes, and rank, truncate and
//! render them into the output artifact.
//!
//! All text is handled as UTF-8 bytes, durations as whole milliseconds,
//! latencies as hundredths of a millisecond and transfer rates as hundredths
//! of a megabyte per second, so every quantity is an exact integer.

pub mod config;
pub mod dispatch;
pub mod geo;
pub mod pipeline;
pub mod probe;
pub mod results;
pub mod source;
