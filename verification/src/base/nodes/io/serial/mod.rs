//! Serial lines: characters to lines.
pub mod line_separator;
pub mod writer;
