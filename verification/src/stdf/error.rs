//! Errors raised by the STDF reader/writer.

use vstd::prelude::*;

verus! {

/// Errors raised by the STDF (Standard Test Data Format) reader/writer.
#[derive(Debug, PartialEq, Eq)]
pub enum StdfError {
    /// Stream ended mid-record.
    UnexpectedEof { wanted: usize, had: usize },
    /// Record header too short (need 4 bytes).
    ShortRecordHeader(usize),
    /// A string length prefix used an invalid number of bytes.
    InvalidStringLengthBits { count: usize },
    /// A string field overruns its record.
    StringOverrun { length: usize, remaining: usize },
    /// Unknown record type met in strict mode.
    UnknownRecord { typ: u8, sub: u8 },
    /// Record data is malformed.
    MalformedRecord { typ: u8, sub: u8, detail: String },
    /// A record could not be written.
    WriteError { detail: String },
}

/// The end-of-data error for a read that wanted `wanted` bytes and had `had`.
pub open spec fn eof(wanted: int, had: int) -> StdfError {
    StdfError::UnexpectedEof { wanted: wanted as usize, had: had as usize }
}

} // verus!
