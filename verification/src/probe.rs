//! Measuring the link: round trip times and transfer rates.

pub mod latency;
pub mod transfer;
