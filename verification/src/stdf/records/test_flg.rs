//! TEST_FLG bit meanings that are stable across the field (STDF V4, PTR).

use vstd::prelude::*;

verus! {

/// Test failed.
pub const TEST_FAILED: u8 = 0x01;

/// Data unreliable.
pub const DATA_UNRELIABLE: u8 = 0x04;

/// `RESULT` carries a pass/fail verdict rather than a measurement.
pub const PASS_FAIL_FIELD: u8 = 0x08;

/// Test not executed.
pub const NOT_EXECUTED: u8 = 0x40;

} // verus!
