//! Measuring an internet connection: the units, the arithmetic of a
//! measurement, the parsing of what the server reports and the text shown.

pub mod units;
pub mod numerals;
pub mod error;
pub mod endpoint;
pub mod probe;
pub mod render;
pub mod report;
pub mod session;
pub mod cli;
