//! The failures that decoding and dispatch can report.

use vstd::prelude::*;

verus! {

/// Why a message could not be decoded or dispatched.
#[derive(Clone, Copy, Debug, PartialEq, Eq, Structural)]
pub enum WireError {
    /// The input ended before a complete field was read.
    TruncatedInput,
    /// A field was complete but does not denote a value, such as a compact
    /// string whose bytes are not UTF-8.
    InvalidEncoding,
    /// The request names an API key that no handler is registered for.
    UnsupportedApi,
    /// The API key is known but the requested version lies outside the
    /// range its handler supports.
    UnsupportedVersion,
}

} // verus!
