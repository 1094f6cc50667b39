//! OPT_FLAG bit meanings (STDF V4, PTR).

use vstd::prelude::*;

verus! {

/// `RES_SCAL` is not present.
pub const NO_RES_SCAL: u8 = 0x01;

/// `LLM_SCAL` is not present.
pub const NO_LLM_SCAL: u8 = 0x02;

/// `HLM_SCAL` is not present.
pub const NO_HLM_SCAL: u8 = 0x04;

/// `LO_LIMIT` is not present.
pub const NO_LO_LIMIT: u8 = 0x08;

/// `HI_LIMIT` is not present.
pub const NO_HI_LIMIT: u8 = 0x10;

} // verus!
