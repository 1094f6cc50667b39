//! Errors raised by the SECS/GEM layer.

use crate::secs::hsms::HsmsState;
use vstd::prelude::*;

verus! {

/// Errors raised by the SECS/GEM equipment-communication layer.
#[derive(Debug, PartialEq, Eq)]
pub enum SecsError {
    /// Stream ended mid-message.
    UnexpectedEof { wanted: usize, had: usize },
    /// Invalid SECS-II item header byte.
    InvalidItemHeader(u8),
    /// SECS-II item length uses a number of length bytes outside 1-3.
    InvalidItemLengthBits(u8),
    /// SECS-II item length exceeds the remaining data.
    ItemLengthOverflow { length: usize, remaining: usize },
    /// Bytes left over after a SECS-II item.
    TrailingBytesAfterItem { count: usize },
    /// Non-data HSMS message where data was expected.
    NotDataMessage { stype: u8 },
    /// HSMS header must be 10 bytes.
    BadHeaderSize(usize),
    /// HSMS PType not supported (only SECS-II, PType 0).
    UnsupportedPType(u8),
    /// HSMS connection is not in the Selected state.
    NotSelected { state: HsmsState },
    /// SECS-II body missing from a data message.
    MissingDataBody { stream: u8, function: u8 },
    /// Unexpected SECS message SxFy.
    UnexpectedStreamFunction { stream: u8, function: u8, wanted: String },
    /// GEM semantic error.
    Gem(String),
}

} // verus!
