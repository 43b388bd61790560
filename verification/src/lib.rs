//! Decoder for 16-bit segmented "New Executable" (NE) containers.
//!
//! The crate works on an in-memory byte image. [`util::reader::ByteReader`] is
//! the positioned byte source; [`mz`] and [`ne`] decode the two headers and
//! the tables that hang off them, and [`x86`] decodes the machine instructions
//! held in code segments. Every decoder carries a contract over the mathematical
//! view of the bytes it consumes.

pub mod error;
pub mod mz;
pub mod ne;
pub mod util;
pub mod x86;
