//! CPU_TYPE codes for the FAR record.

use vstd::prelude::*;

verus! {

/// Big-endian 68000-class CPU.
pub const M68000: u8 = 1;

/// Little-endian x86-class CPU.
pub const X86: u8 = 3;

} // verus!
