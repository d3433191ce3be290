//! Turning measurements into text: block digits, finished summaries and
//! the frames of the live display.

pub mod live;
pub mod summary;
pub mod text;
