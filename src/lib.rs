//! Timing breakdown and terminal rendering for a single HTTP request:
//! metric extraction, header coloring and the phase diagram.

pub mod color;
pub mod headers;
pub mod metrics;
pub mod number;
pub mod report;
pub mod text;
pub mod timing;

