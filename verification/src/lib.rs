//! Telemetry bridge for a radio-repeater monitoring board.
//!
//! The crate turns the board's newline-delimited byte stream into tagged,
//! timestamped metric records: it frames the stream into lines, checks each
//! line against the channel layout and the number grammar, and assembles the
//! records that are handed to a time-series store.

pub mod config;
pub mod cpu_stats;
pub mod dispatch;
pub mod layout;
pub mod metric;
pub mod numeral;
pub mod reading;
pub mod sensor_board;
pub mod serial_reader;
pub mod split;
pub mod swr;
