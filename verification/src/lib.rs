//! A verified core for a terminal resource monitor: unit scaling and rate
//! formatting for network throughput, fixed-width field alignment, and the
//! reduction of raw per-core, memory and per-interface counters into one
//! sample per tick. All arithmetic is exact integer arithmetic; percentages
//! are carried in hundredths of a percent and rates in hundredths of a unit,
//! so every displayed digit is pinned down by a specification function.

pub mod align;
pub mod digits;
pub mod metrics;
pub mod rate;
pub mod units;
