//! Serial lines: bytes to characters to lines, and back.
pub mod line_separator;
pub mod reader;
pub mod writer;
