//! Bin taxonomy: the hardware (HBR) and software (SBR) bin definitions a
//! test program sorts dies into, plus the aggregate tallies the STDF
//! summary records and the outcome report's bin distribution are built from.
//!
//! Defaults follow common ATE practice: hard bin 1 = pass; failing hard
//! bins group by failure class (parametric / functional / abort); soft bins
//! identify the specific failing test group. A real program's bin policy
//! comes with its test program, so the taxonomy here is configurable rather
//! than hard-coded.

use std::collections::BTreeMap;
use vstd::prelude::*;

verus! {

broadcast use {vstd::std_specs::btree::group_btree_axioms, vstd::laws_cmp::group_laws_cmp};

/// Definition of one hardware bin.
#[derive(Debug, Clone, PartialEq, Eq)]
pub struct HardBin {
    pub number: u16,
    /// Whether this bin is a pass bin.
    pub pass: bool,
    pub name: String,
}

/// Definition of one software bin and the hardware bin it rolls up into.
#[derive(Debug, Clone, PartialEq, Eq)]
pub struct SoftBin {
    pub number: u16,
    pub name: String,
    pub hard_bin: u16,
}

/// The hard bin every unknown soft bin rolls up into (ABORT).
pub const ABORT_HARD_BIN: u16 = 12;

/// The bin taxonomy for a test program.
#[derive(Debug, Clone, PartialEq, Eq)]
pub struct BinTaxonomy {
    pub hard_bins: BTreeMap<u16, HardBin>,
    pub soft_bins: BTreeMap<u16, SoftBin>,
}

/// The hard bin a soft bin rolls up into under a soft-bin table.
pub open spec fn roll_up(soft_bins: Map<u16, SoftBin>, soft_bin: u16) -> u16 {
    if soft_bins.contains_key(soft_bin) {
        soft_bins[soft_bin].hard_bin
    } else {
        ABORT_HARD_BIN
    }
}

/// Whether a hard bin is a pass bin under a hard-bin table.
pub open spec fn is_pass_bin(hard_bins: Map<u16, HardBin>, hard_bin: u16) -> bool {
    hard_bins.contains_key(hard_bin) && hard_bins[hard_bin].pass
}

/// A hard bin entry with the given fields.
pub open spec fn hard_entry(m: Map<u16, HardBin>, number: u16, pass: bool, name: Seq<char>) -> bool {
    &&& m.contains_key(number)
    &&& m[number].number == number
    &&& m[number].pass == pass
    &&& m[number].name@ == name
}

/// A soft bin entry with the given fields.
pub open spec fn soft_entry(m: Map<u16, SoftBin>, number: u16, name: Seq<char>, hard_bin: u16) -> bool {
    &&& m.contains_key(number)
    &&& m[number].number == number
    &&& m[number].name@ == name
    &&& m[number].hard_bin == hard_bin
}

/// The default taxonomy: exactly hard bins 1 PASS (pass), 10
/// PARAMETRIC_FAIL, 11 FUNCTIONAL_FAIL, 12 ABORT, and soft bins 1 PASS_ALL,
/// 10 FAIL_PARAMETRIC, 11 FAIL_FUNCTIONAL, 12 FAIL_ABORT, each rolling up into
/// the hard bin of the same number.
pub open spec fn is_default_taxonomy(t: BinTaxonomy) -> bool {
    &&& t.hard_bins@.dom() == set![1u16, 10u16, 11u16, 12u16]
    &&& hard_entry(t.hard_bins@, 1, true, "PASS"@)
    &&& hard_entry(t.hard_bins@, 10, false, "PARAMETRIC_FAIL"@)
    &&& hard_entry(t.hard_bins@, 11, false, "FUNCTIONAL_FAIL"@)
    &&& hard_entry(t.hard_bins@, 12, false, "ABORT"@)
    &&& t.soft_bins@.dom() == set![1u16, 10u16, 11u16, 12u16]
    &&& soft_entry(t.soft_bins@, 1, "PASS_ALL"@, 1)
    &&& soft_entry(t.soft_bins@, 10, "FAIL_PARAMETRIC"@, 10)
    &&& soft_entry(t.soft_bins@, 11, "FAIL_FUNCTIONAL"@, 11)
    &&& soft_entry(t.soft_bins@, 12, "FAIL_ABORT"@, 12)
}

impl BinTaxonomy {
    /// Default taxonomy used when the incoming test program does not carry
    /// its own bin policy:
    ///
    /// - hard bins: 1 PASS, 10 PARAMETRIC_FAIL, 11 FUNCTIONAL_FAIL, 12 ABORT
    /// - soft bins: 1 PASS_ALL -> 1; 10 FAIL_PARAMETRIC -> 10;
    ///   11 FAIL_FUNCTIONAL -> 11; 12 FAIL_ABORT -> 12
    pub fn defaults() -> (t: BinTaxonomy)
        ensures
            is_default_taxonomy(t),
    {
        let mut hard_bins: BTreeMap<u16, HardBin> = BTreeMap::new();
        hard_bins.insert(1, HardBin { number: 1, pass: true, name: "PASS".to_string() });
        hard_bins.insert(10, HardBin { number: 10, pass: false, name: "PARAMETRIC_FAIL".to_string() });
        hard_bins.insert(11, HardBin { number: 11, pass: false, name: "FUNCTIONAL_FAIL".to_string() });
        hard_bins.insert(12, HardBin { number: 12, pass: false, name: "ABORT".to_string() });
        let mut soft_bins: BTreeMap<u16, SoftBin> = BTreeMap::new();
        soft_bins.insert(1, SoftBin { number: 1, name: "PASS_ALL".to_string(), hard_bin: 1 });
        soft_bins.insert(10, SoftBin { number: 10, name: "FAIL_PARAMETRIC".to_string(), hard_bin: 10 });
        soft_bins.insert(11, SoftBin { number: 11, name: "FAIL_FUNCTIONAL".to_string(), hard_bin: 11 });
        soft_bins.insert(12, SoftBin { number: 12, name: "FAIL_ABORT".to_string(), hard_bin: 12 });
        assert(hard_bins@.dom() =~= set![1u16, 10u16, 11u16, 12u16]);
        assert(soft_bins@.dom() =~= set![1u16, 10u16, 11u16, 12u16]);
        BinTaxonomy { hard_bins, soft_bins }
    }

    /// The hardware bin a software bin rolls up into (falls back to the
    /// ABORT bin for unknown soft bins).
    pub fn hard_bin_of(&self, soft_bin: u16) -> (h: u16)
        ensures
            h == roll_up(self.soft_bins@, soft_bin),
    {
        match self.soft_bins.get(&soft_bin) {
            Some(b) => b.hard_bin,
            None => ABORT_HARD_BIN,
        }
    }

    /// Is this hard bin a pass bin? (Unknown bins are treated as fail.)
    pub fn is_pass_hard_bin(&self, hard_bin: u16) -> (b: bool)
        ensures
            b == is_pass_bin(self.hard_bins@, hard_bin),
    {
        match self.hard_bins.get(&hard_bin) {
            Some(b) => b.pass,
            None => false,
        }
    }
}

impl Default for BinTaxonomy {
    fn default() -> (t: Self)
        ensures
            is_default_taxonomy(t),
    {
        BinTaxonomy::defaults()
    }
}

/// Aggregate bin tallies over one wafer run: the source for STDF's HBR/SBR
/// summary records and the outcome report's bin distribution.
#[derive(Debug, Clone, PartialEq, Eq)]
pub struct BinTally {
    pub total_tested: u32,
    pub total_passed: u32,
    /// Dies per hardware bin.
    pub hard_bins: BTreeMap<u16, u32>,
    /// Dies per software bin.
    pub soft_bins: BTreeMap<u16, u32>,
    pub aborted: u32,
}

/// A count map with one more in `key` (a missing key counts from zero).
pub open spec fn bump(m: Map<u16, u32>, key: u16) -> Map<u16, u32> {
    m.insert(key, if m.contains_key(key) { (m[key] + 1) as u32 } else { 1u32 })
}

/// The count under `key` (zero when absent).
pub open spec fn count_of(m: Map<u16, u32>, key: u16) -> int {
    if m.contains_key(key) { m[key] as int } else { 0 }
}

impl BinTally {
    /// An empty tally.
    pub fn new() -> (t: BinTally)
        ensures
            t.total_tested == 0 && t.total_passed == 0 && t.aborted == 0,
            t.hard_bins@ == Map::<u16, u32>::empty(),
            t.soft_bins@ == Map::<u16, u32>::empty(),
    {
        BinTally { total_tested: 0, total_passed: 0, hard_bins: BTreeMap::new(), soft_bins: BTreeMap::new(), aborted: 0 }
    }

    /// Count one more die with the given assignment.
    pub fn record(&mut self, passed: bool, hard_bin: u16, soft_bin: u16)
        requires
            old(self).total_tested < u32::MAX,
            passed ==> old(self).total_passed < u32::MAX,
            count_of(old(self).hard_bins@, hard_bin) < u32::MAX,
            count_of(old(self).soft_bins@, soft_bin) < u32::MAX,
        ensures
            final(self).total_tested == old(self).total_tested + 1,
            final(self).total_passed == old(self).total_passed + if passed { 1int } else { 0int },
            final(self).hard_bins@ == bump(old(self).hard_bins@, hard_bin),
            final(self).soft_bins@ == bump(old(self).soft_bins@, soft_bin),
            final(self).aborted == old(self).aborted,
    {
        self.total_tested = self.total_tested + 1;
        self.total_passed = self.total_passed + if passed { 1 } else { 0 };
        let h = match self.hard_bins.get(&hard_bin) {
            Some(c) => *c + 1,
            None => 1,
        };
        self.hard_bins.insert(hard_bin, h);
        let s = match self.soft_bins.get(&soft_bin) {
            Some(c) => *c + 1,
            None => 1,
        };
        self.soft_bins.insert(soft_bin, s);
    }
}

impl Default for BinTally {
    fn default() -> (t: Self)
        ensures
            t.total_tested == 0 && t.total_passed == 0 && t.aborted == 0,
            t.hard_bins@ == Map::<u16, u32>::empty(),
            t.soft_bins@ == Map::<u16, u32>::empty(),
    {
        BinTally::new()
    }
}

} // verus!
