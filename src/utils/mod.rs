//! Plain-text tables for progress reports.
pub mod format;
pub mod logging;
pub mod prettytable;
