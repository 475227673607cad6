//! Fuzzy-hash aggregation for log records: TLSH digests of records, their
//! comparison and order, and a consensus digest drawn by majority vote over
//! many of them. Around it, the small pieces of logic of a log viewer:
//! tables of log lines, column widths, scrolling, key bindings and masking
//! of invisible characters.

pub mod primitive;
pub mod digest;
pub mod hash_store;
pub mod line_hash;

pub mod log_line;
pub mod log_data;
pub mod txt_data;
pub mod csv_data;
pub mod viewport;
pub mod log_view_state;
pub mod log_view;
pub mod csv_view;
pub mod as_masked;
pub mod handler;
pub mod cli;
