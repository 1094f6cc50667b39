//! Report variable IDs (VIDs) carried in the DIE_TESTED event report.

use vstd::prelude::*;

verus! {

/// Die X coordinate on the wafer map (U2).
pub const DIE_X: u32 = 1000;

/// Die Y coordinate on the wafer map (U2).
pub const DIE_Y: u32 = 1001;

/// Assigned hardware bin (U2).
pub const HARD_BIN: u32 = 1002;

/// Assigned software bin (U2).
pub const SOFT_BIN: u32 = 1003;

/// Die passed (BOOLEAN).
pub const DIE_PASS: u32 = 1004;

} // verus!
