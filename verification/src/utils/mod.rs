//! Byte-size formatting and the CSV export of container records.

pub mod export;
pub mod csv_text;
pub mod format;

pub use export::{ExportError, Exporter};
pub use format::format_bytes;
