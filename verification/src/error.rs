//! The failures a decode can end in.

use vstd::prelude::*;

verus! {

/// Why a decode stopped.
///
/// Every variant except `InvalidOpcode` is fatal for the container being read.
/// An `InvalidOpcode` is absorbed by the instruction listing, which replaces the
/// offending byte by a one-byte placeholder and goes on.
#[derive(Debug, Clone, Copy, PartialEq, Eq, Structural)]
pub enum DecodeError {
    /// A header does not start with its two signature bytes.
    BadMagic,
    /// The byte source ended inside a record.
    TruncatedInput,
    /// A table's records would overrun the size declared for the table.
    InconsistentLength,
    /// A relocation record selects a target kind that the format leaves undefined.
    InvalidRelocationType,
    /// An opcode byte is outside the decoder's coverage.
    InvalidOpcode,
    /// The 16-bit word sum of a checked image is not zero; the sum is carried along.
    BadChecksum(u16),
}

} // verus!
