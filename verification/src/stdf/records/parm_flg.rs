//! PARM_FLG bit meanings (STDF V4, PTR).

use vstd::prelude::*;

verus! {

/// `OPT_FLAG` and the optional scaling/limit fields are present.
pub const OPT_FLAG_PRESENT: u8 = 0x10;

} // verus!
