//! Shared helpers: the fixed-endianness scalar codec and the byte reader.

pub mod endian;
pub mod reader;
