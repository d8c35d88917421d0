//! The ways in which decoding a multipart body can fail.

use vstd::prelude::*;

verus! {

/// Why the decoding of a multipart body stopped before the body was complete.
#[derive(Debug, Clone, Copy, PartialEq, Eq, Structural)]
pub enum DecodeError {
    /// The body is not well-formed multipart data: a bad boundary, truncated
    /// headers, or anything else that keeps the next part from being opened.
    MalformedBody,
    /// The transport failed while the payload of a part was being read.
    PayloadInterrupted,
    /// An event arrived that the decoder had not asked for.
    OutOfSequence,
    /// The events stopped before the end of the body was reported.
    Incomplete,
}

} // verus!
