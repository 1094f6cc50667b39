//! Event IDs used by the ATE simulator's data collection (S6F11). Real
//! equipment configures these per test plan; the simulator uses one fixed
//! vocabulary documented here.

use vstd::prelude::*;

verus! {

/// A die finished testing; attached report carries die location and bins.
pub const DIE_TESTED: u32 = 101;

/// All dies on the wafer processed.
pub const WAFER_DONE: u32 = 102;

} // verus!
