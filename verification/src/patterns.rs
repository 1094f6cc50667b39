//! The test-program input the tester consumes and executes: test numbers,
//! names, units, limits, pattern-group sizes, and the per-test soft-bin
//! policy. It carries no test *authoring* semantics (fault targeting,
//! pattern compaction): the tester executes what it is given. Limits and
//! nominal values are `R*4` bit patterns.

use vstd::prelude::*;

verus! {

/// One parametric test in the program (executes as a STDF PTR).
#[derive(Debug, Clone, PartialEq)]
pub struct TestSpec {
    pub test_number: u32,
    pub name: String,
    pub unit: String,
    /// Expected value the simulator measures around (`R*4` bits).
    pub nominal: u32,
    /// Lower limit (`R*4` bits), if any.
    pub lo_limit: Option<u32>,
    /// Upper limit (`R*4` bits), if any.
    pub hi_limit: Option<u32>,
    /// Software bin assigned when this test fails (0 means the taxonomy
    /// default).
    pub fail_soft_bin: u16,
}

/// One ATPG pattern group in the program (executes as a STDF FTR).
#[derive(Debug, Clone, PartialEq)]
pub struct PatternGroup {
    pub name: String,
    /// Number of pattern vectors in the group (STDF FTR `CYCL_CNT` input).
    pub vector_count: u32,
    /// The FTR/PTR test number this group reports under.
    pub test_number: u32,
    /// Software bin assigned when this group fails (0 means the taxonomy
    /// default).
    pub fail_soft_bin: u16,
}

/// The executable test program for one design.
#[derive(Debug, Clone, PartialEq)]
pub struct TestProgram {
    /// Design name (DFT-inserted netlist the patterns were generated for).
    pub design_name: String,
    pub lot_id: String,
    pub part_type: String,
    pub sblot_id: String,
    pub tests: Vec<TestSpec>,
    pub pattern_groups: Vec<PatternGroup>,
}

} // verus!
