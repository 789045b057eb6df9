//! Limits that the decoder enforces.

use vstd::prelude::*;

verus! {

/// Longest string, in bytes, that the decoder accepts.
pub const MAX_STRING_LENGTH: usize = 65535;

/// Longest byte string that the decoder accepts.
pub const MAX_BYTE_STRING_LENGTH: usize = 65535;

/// Largest number of elements in an array that the decoder accepts.
pub const MAX_ARRAY_LENGTH: usize = 1000;

/// Largest size of a message in bytes.
pub const MAX_MESSAGE_LENGTH: usize = 16777216;

/// Deepest nesting of diagnostic infos that the decoder follows.
pub const MAX_DIAGNOSTIC_DEPTH: usize = 100;

} // verus!
