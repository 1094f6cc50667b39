//! Bin-sort logic: turns per-die execution results into hardware/software
//! bin assignments keyed to the wafer map.
//!
//! Rules, in priority order:
//! 1. An aborted die bins to the ABORT soft bin (12, hard 12 by default).
//! 2. The **first** failing item in execution order determines the bin: a
//!    failed measurement bins to its [`crate::patterns::TestSpec`]'s
//!    `fail_soft_bin`, a failed pattern group to its
//!    [`crate::patterns::PatternGroup`]'s `fail_soft_bin`; a zero soft bin
//!    falls back to the taxonomy default for that failure class.
//! 3. No failures: the pass bin (soft 1, rolled up through the taxonomy).

use crate::bins::{bump, count_of, roll_up, BinTally, BinTaxonomy};
use crate::patterns::{PatternGroup, TestProgram, TestSpec};
use crate::wafer::{die_count, in_hard_bin, in_soft_bin, is_passed, is_tested, lemma_die_count_replace, DieCoord, DieState, DieTestOutcome, WaferDieMap};
use std::collections::BTreeMap;
use vstd::prelude::*;

verus! {

/// Default soft bin when a failing test does not name one: the taxonomy's
/// generic parametric fail bin.
pub const DEFAULT_PARAMETRIC_SOFT_BIN: u16 = 10;

/// Default soft bin for a failed pattern group: the taxonomy's generic
/// functional fail bin.
pub const DEFAULT_FUNCTIONAL_SOFT_BIN: u16 = 11;

/// Soft bin for an aborted die.
pub const ABORT_SOFT_BIN: u16 = 12;

/// The soft bin of a passing die.
pub const PASS_SOFT_BIN: u16 = 1;

/// Result of executing one die's program on the (real or simulated) tester,
/// in execution order.
#[derive(Debug, Clone, PartialEq)]
pub struct DieTestResult {
    pub coord: DieCoord,
    /// Parametric measurements, execution order.
    pub measurements: Vec<MeasurementOutcome>,
    /// Pattern-group executions, execution order.
    pub patterns: Vec<PatternOutcome>,
    /// The tester aborted before completing the program.
    pub aborted: bool,
}

/// One parametric measurement on one die (the value as `R*4` bits).
#[derive(Debug, Clone, PartialEq)]
pub struct MeasurementOutcome {
    pub test_number: u32,
    pub value: u32,
    pub passed: bool,
}

/// One pattern-group execution on one die.
#[derive(Debug, Clone, PartialEq)]
pub struct PatternOutcome {
    pub name: String,
    pub test_number: u32,
    pub passed: bool,
}

/// The bin assignment for one die.
#[derive(Debug, Clone, PartialEq)]
pub struct BinAssignment {
    pub coord: DieCoord,
    pub passed: bool,
    pub hard_bin: u16,
    pub soft_bin: u16,
    /// Test number of the first failing item, if the die failed.
    pub failing_test: Option<u32>,
}

/// The test number of the first failing measurement, in execution order.
pub open spec fn first_failed_measurement(ms: Seq<MeasurementOutcome>) -> Option<u32>
    decreases ms.len(),
{
    if ms.len() == 0 {
        None
    } else if !ms[0].passed {
        Some(ms[0].test_number)
    } else {
        first_failed_measurement(ms.subrange(1, ms.len() as int))
    }
}

/// The test number of the first failing pattern group, in execution order.
pub open spec fn first_failed_pattern(ps: Seq<PatternOutcome>) -> Option<u32>
    decreases ps.len(),
{
    if ps.len() == 0 {
        None
    } else if !ps[0].passed {
        Some(ps[0].test_number)
    } else {
        first_failed_pattern(ps.subrange(1, ps.len() as int))
    }
}

/// The soft bin the first test spec numbered `n` declares (0 if none).
pub open spec fn declared_test_bin(tests: Seq<TestSpec>, n: u32) -> u16
    decreases tests.len(),
{
    if tests.len() == 0 {
        0
    } else if tests[0].test_number == n {
        tests[0].fail_soft_bin
    } else {
        declared_test_bin(tests.subrange(1, tests.len() as int), n)
    }
}

/// The soft bin the first pattern group numbered `n` declares (0 if none).
pub open spec fn declared_group_bin(groups: Seq<PatternGroup>, n: u32) -> u16
    decreases groups.len(),
{
    if groups.len() == 0 {
        0
    } else if groups[0].test_number == n {
        groups[0].fail_soft_bin
    } else {
        declared_group_bin(groups.subrange(1, groups.len() as int), n)
    }
}

/// A failing assignment: the declared soft bin (or the fallback when it is
/// zero) and the hard bin it rolls up into.
pub open spec fn fail_bins(tax: BinTaxonomy, declared: u16, fallback: u16) -> (u16, u16) {
    let soft = if declared == 0 { fallback } else { declared };
    (roll_up(tax.soft_bins@, soft), soft)
}

/// The bin rules: `(passed, hard_bin, soft_bin, failing_test)` of a die.
pub open spec fn sort_spec(result: DieTestResult, program: TestProgram, tax: BinTaxonomy) -> (bool, u16, u16, Option<u32>) {
    if result.aborted {
        let (h, s) = fail_bins(tax, ABORT_SOFT_BIN, ABORT_SOFT_BIN);
        (false, h, s, None)
    } else {
        match first_failed_measurement(result.measurements@) {
            Some(n) => {
                let (h, s) = fail_bins(tax, declared_test_bin(program.tests@, n), DEFAULT_PARAMETRIC_SOFT_BIN);
                (false, h, s, Some(n))
            },
            None => match first_failed_pattern(result.patterns@) {
                Some(n) => {
                    let (h, s) = fail_bins(tax, declared_group_bin(program.pattern_groups@, n), DEFAULT_FUNCTIONAL_SOFT_BIN);
                    (false, h, s, Some(n))
                },
                None => (true, roll_up(tax.soft_bins@, PASS_SOFT_BIN), PASS_SOFT_BIN, None),
            },
        }
    }
}

/// An assignment matches the bin rules for its die.
pub open spec fn assigned(a: BinAssignment, result: DieTestResult, program: TestProgram, tax: BinTaxonomy) -> bool {
    let (p, h, s, f) = sort_spec(result, program, tax);
    &&& a.coord == result.coord
    &&& a.passed == p
    &&& a.hard_bin == h
    &&& a.soft_bin == s
    &&& a.failing_test == f
}

/// The soft bin the program declares for a failed test numbered `n`.
fn test_bin(tests: &Vec<TestSpec>, n: u32) -> (b: u16)
    ensures
        b == declared_test_bin(tests@, n),
{
    let mut i: usize = 0;
    assert(tests@.subrange(0, tests@.len() as int) =~= tests@);
    while i < tests.len()
        invariant
            i <= tests@.len(),
            declared_test_bin(tests@, n) == declared_test_bin(tests@.subrange(i as int, tests@.len() as int), n),
        decreases tests@.len() - i,
    {
        let ghost rest = tests@.subrange(i as int, tests@.len() as int);
        assert(rest.subrange(1, rest.len() as int) =~= tests@.subrange(i + 1, tests@.len() as int));
        if tests[i].test_number == n {
            return tests[i].fail_soft_bin;
        }
        i = i + 1;
    }
    0
}

/// The soft bin the program declares for a failed pattern group numbered `n`.
fn group_bin(groups: &Vec<PatternGroup>, n: u32) -> (b: u16)
    ensures
        b == declared_group_bin(groups@, n),
{
    let mut i: usize = 0;
    assert(groups@.subrange(0, groups@.len() as int) =~= groups@);
    while i < groups.len()
        invariant
            i <= groups@.len(),
            declared_group_bin(groups@, n) == declared_group_bin(groups@.subrange(i as int, groups@.len() as int), n),
        decreases groups@.len() - i,
    {
        let ghost rest = groups@.subrange(i as int, groups@.len() as int);
        assert(rest.subrange(1, rest.len() as int) =~= groups@.subrange(i + 1, groups@.len() as int));
        if groups[i].test_number == n {
            return groups[i].fail_soft_bin;
        }
        i = i + 1;
    }
    0
}

/// The first failing measurement's test number.
fn first_failing_measurement(ms: &Vec<MeasurementOutcome>) -> (r: Option<u32>)
    ensures
        r == first_failed_measurement(ms@),
{
    let mut i: usize = 0;
    assert(ms@.subrange(0, ms@.len() as int) =~= ms@);
    while i < ms.len()
        invariant
            i <= ms@.len(),
            first_failed_measurement(ms@) == first_failed_measurement(ms@.subrange(i as int, ms@.len() as int)),
        decreases ms@.len() - i,
    {
        let ghost rest = ms@.subrange(i as int, ms@.len() as int);
        assert(rest.subrange(1, rest.len() as int) =~= ms@.subrange(i + 1, ms@.len() as int));
        if !ms[i].passed {
            return Some(ms[i].test_number);
        }
        i = i + 1;
    }
    None
}

/// The first failing pattern group's test number.
fn first_failing_pattern(ps: &Vec<PatternOutcome>) -> (r: Option<u32>)
    ensures
        r == first_failed_pattern(ps@),
{
    let mut i: usize = 0;
    assert(ps@.subrange(0, ps@.len() as int) =~= ps@);
    while i < ps.len()
        invariant
            i <= ps@.len(),
            first_failed_pattern(ps@) == first_failed_pattern(ps@.subrange(i as int, ps@.len() as int)),
        decreases ps@.len() - i,
    {
        let ghost rest = ps@.subrange(i as int, ps@.len() as int);
        assert(rest.subrange(1, rest.len() as int) =~= ps@.subrange(i + 1, ps@.len() as int));
        if !ps[i].passed {
            return Some(ps[i].test_number);
        }
        i = i + 1;
    }
    None
}

/// Sort one die's results into its bin assignment, consulting the program's
/// per-test bin policy.
pub fn sort_die(result: &DieTestResult, program: &TestProgram, taxonomy: &BinTaxonomy) -> (a: BinAssignment)
    ensures
        assigned(a, *result, *program, *taxonomy),
        result.aborted ==> !a.passed && a.soft_bin == ABORT_SOFT_BIN,
        a.hard_bin == roll_up(taxonomy.soft_bins@, a.soft_bin),
        a.passed <==> (!result.aborted && first_failed_measurement(result.measurements@) is None
            && first_failed_pattern(result.patterns@) is None),
{
    if result.aborted {
        let hard = taxonomy.hard_bin_of(ABORT_SOFT_BIN);
        return BinAssignment { coord: result.coord, passed: false, hard_bin: hard, soft_bin: ABORT_SOFT_BIN, failing_test: None };
    }
    match first_failing_measurement(&result.measurements) {
        Some(n) => {
            let declared = test_bin(&program.tests, n);
            let soft = if declared == 0 { DEFAULT_PARAMETRIC_SOFT_BIN } else { declared };
            let hard = taxonomy.hard_bin_of(soft);
            BinAssignment { coord: result.coord, passed: false, hard_bin: hard, soft_bin: soft, failing_test: Some(n) }
        },
        None => match first_failing_pattern(&result.patterns) {
            Some(n) => {
                let declared = group_bin(&program.pattern_groups, n);
                let soft = if declared == 0 { DEFAULT_FUNCTIONAL_SOFT_BIN } else { declared };
                let hard = taxonomy.hard_bin_of(soft);
                BinAssignment { coord: result.coord, passed: false, hard_bin: hard, soft_bin: soft, failing_test: Some(n) }
            },
            None => {
                let hard = taxonomy.hard_bin_of(PASS_SOFT_BIN);
                BinAssignment { coord: result.coord, passed: true, hard_bin: hard, soft_bin: PASS_SOFT_BIN, failing_test: None }
            },
        },
    }
}

/// The wafer map after recording each result's assignment in order, and how
/// many results fell on no testable site.
pub open spec fn sort_fold(dies: Map<(i32, i32), DieState>, results: Seq<DieTestResult>, program: TestProgram, tax: BinTaxonomy) -> (Map<(i32, i32), DieState>, nat)
    decreases results.len(),
{
    if results.len() == 0 {
        (dies, 0)
    } else {
        let (m, u) = sort_fold(dies, results.drop_last(), program, tax);
        let r = results.last();
        let (p, h, s, _) = sort_spec(r, program, tax);
        let key = r.coord.key();
        if m.contains_key(key) && !(m[key] is Excluded) {
            (m.insert(key, DieState::Tested(DieTestOutcome { passed: p, hard_bin: h, soft_bin: s })), u)
        } else {
            (m, u + 1)
        }
    }
}

/// Sorting only records at sites of the map, and only at the sites of the
/// results.
proof fn lemma_sort_fold_frame(dies: Map<(i32, i32), DieState>, results: Seq<DieTestResult>, program: TestProgram, tax: BinTaxonomy)
    ensures
        sort_fold(dies, results, program, tax).0.dom() == dies.dom(),
        forall|k: (i32, i32)| #[trigger] dies.contains_key(k) && (forall|i: int| 0 <= i < results.len() ==> results[i].coord.key() != k)
            ==> sort_fold(dies, results, program, tax).0[k] == dies[k],
    decreases results.len(),
{
    if results.len() > 0 {
        let init = results.drop_last();
        lemma_sort_fold_frame(dies, init, program, tax);
        let m = sort_fold(dies, init, program, tax).0;
        assert forall|k: (i32, i32)| #[trigger] dies.contains_key(k) && (forall|i: int| 0 <= i < results.len() ==> results[i].coord.key() != k)
            implies sort_fold(dies, results, program, tax).0[k] == dies[k] by {
            assert forall|i: int| 0 <= i < init.len() implies init[i].coord.key() != k by {
                assert(init[i] == results[i]);
            }
            assert(results[results.len() - 1].coord.key() != k);
        }
        assert(sort_fold(dies, results, program, tax).0.dom() =~= dies.dom());
    }
}

/// The wafer map and the tally summarize a run the same way: when the
/// results fall on distinct untested sites of a map with no tested dies,
/// every result is recorded, and the map then holds as many tested dies,
/// passing dies, and dies in each hard and soft bin as the tally counts.
pub proof fn lemma_sort_matches_tally(dies: Map<(i32, i32), DieState>, results: Seq<DieTestResult>, program: TestProgram, tax: BinTaxonomy)
    requires
        results.len() <= u32::MAX,
        dies.dom().finite(),
        forall|k: (i32, i32)| #[trigger] dies.contains_key(k) ==> !(dies[k] is Tested),
        forall|i: int| 0 <= i < results.len() ==> dies.contains_key(#[trigger] results[i].coord.key())
            && dies[results[i].coord.key()] is Untested,
        forall|i: int, j: int| 0 <= i < j < results.len() ==> results[i].coord.key() != results[j].coord.key(),
    ensures
        sort_fold(dies, results, program, tax).1 == 0,
        die_count(sort_fold(dies, results, program, tax).0, |kv: ((i32, i32), DieState)| is_tested(kv))
            == tally_fold(results, program, tax).0,
        die_count(sort_fold(dies, results, program, tax).0, |kv: ((i32, i32), DieState)| is_passed(kv))
            == tally_fold(results, program, tax).1,
        forall|b: u16| die_count(sort_fold(dies, results, program, tax).0, #[trigger] in_hard_bin(b))
            == count_of(tally_fold(results, program, tax).2, b),
        forall|b: u16| die_count(sort_fold(dies, results, program, tax).0, #[trigger] in_soft_bin(b))
            == count_of(tally_fold(results, program, tax).3, b),
    decreases results.len(),
{
    let pt = |kv: ((i32, i32), DieState)| is_tested(kv);
    let pp = |kv: ((i32, i32), DieState)| is_passed(kv);
    if results.len() == 0 {
        assert(dies.kv_pairs().filter(pt) =~= Set::empty());
        assert(dies.kv_pairs().filter(pp) =~= Set::empty());
        assert forall|b: u16| die_count(dies, #[trigger] in_hard_bin(b)) == 0 by {
            assert(dies.kv_pairs().filter(in_hard_bin(b)) =~= Set::empty());
        }
        assert forall|b: u16| die_count(dies, #[trigger] in_soft_bin(b)) == 0 by {
            assert(dies.kv_pairs().filter(in_soft_bin(b)) =~= Set::empty());
        }
    } else {
        let init = results.drop_last();
        assert forall|i: int| 0 <= i < init.len() implies dies.contains_key(#[trigger] init[i].coord.key())
            && dies[init[i].coord.key()] is Untested by {
            assert(init[i] == results[i]);
        }
        assert forall|i: int, j: int| 0 <= i < j < init.len() implies init[i].coord.key() != init[j].coord.key() by {
            assert(init[i] == results[i] && init[j] == results[j]);
        }
        lemma_sort_matches_tally(dies, init, program, tax);
        lemma_sort_fold_frame(dies, init, program, tax);
        let m = sort_fold(dies, init, program, tax).0;
        let r = results.last();
        let key = r.coord.key();
        assert(dies.contains_key(key) && dies[key] is Untested);
        assert forall|i: int| 0 <= i < init.len() implies init[i].coord.key() != key by {
            assert(init[i] == results[i]);
        }
        assert(m[key] == dies[key]);
        let (p, h, s, _) = sort_spec(r, program, tax);
        let o = DieState::Tested(DieTestOutcome { passed: p, hard_bin: h, soft_bin: s });
        lemma_die_count_replace(m, key, o, pt);
        lemma_die_count_replace(m, key, o, pp);
        lemma_tally_bounds(init, program, tax);
        let hb = tally_fold(init, program, tax).2;
        let sb = tally_fold(init, program, tax).3;
        assert forall|b: u16| die_count(m.insert(key, o), #[trigger] in_hard_bin(b))
            == count_of(tally_fold(results, program, tax).2, b) by {
            lemma_die_count_replace(m, key, o, in_hard_bin(b));
            assert(die_count(m, in_hard_bin(b)) == count_of(hb, b));
            if hb.contains_key(h) {
                assert(hb[h] <= init.len());
            }
        }
        assert forall|b: u16| die_count(m.insert(key, o), #[trigger] in_soft_bin(b))
            == count_of(tally_fold(results, program, tax).3, b) by {
            lemma_die_count_replace(m, key, o, in_soft_bin(b));
            assert(die_count(m, in_soft_bin(b)) == count_of(sb, b));
            if sb.contains_key(s) {
                assert(sb[s] <= init.len());
            }
        }
    }
}

/// Sort a full wafer's results: fills the wafer map. Returns the number of
/// results whose coordinate is not a testable site on the layout.
pub fn sort_wafer(results: &[DieTestResult], wafer: &mut WaferDieMap, program: &TestProgram, taxonomy: &BinTaxonomy) -> (unmatched: u32)
    requires
        results@.len() <= u32::MAX,
    ensures
        (final(wafer).dies@, unmatched as nat) == sort_fold(old(wafer).dies@, results@, *program, *taxonomy),
        final(wafer).wafer_id == old(wafer).wafer_id,
        final(wafer).center == old(wafer).center,
        final(wafer).die_height_mils == old(wafer).die_height_mils,
        final(wafer).die_width_mils == old(wafer).die_width_mils,
{
    let mut unmatched: u32 = 0;
    let mut i: usize = 0;
    while i < results.len()
        invariant
            i <= results@.len(),
            results@.len() <= u32::MAX,
            unmatched <= i,
            (wafer.dies@, unmatched as nat) == sort_fold(old(wafer).dies@, results@.take(i as int), *program, *taxonomy),
            wafer.wafer_id == old(wafer).wafer_id,
            wafer.center == old(wafer).center,
            wafer.die_height_mils == old(wafer).die_height_mils,
            wafer.die_width_mils == old(wafer).die_width_mils,
        decreases results@.len() - i,
    {
        let ghost t = results@.take(i + 1);
        assert(t.drop_last() =~= results@.take(i as int));
        assert(t.last() == results@[i as int]);
        let assignment = sort_die(&results[i], program, taxonomy);
        let recorded = wafer.record(
            assignment.coord,
            DieTestOutcome { passed: assignment.passed, hard_bin: assignment.hard_bin, soft_bin: assignment.soft_bin },
        );
        if !recorded {
            unmatched = unmatched + 1;
        }
        i = i + 1;
    }
    assert(results@.take(i as int) =~= results@);
    unmatched
}

/// The tally after counting each result's assignment in order:
/// `(tested, passed, per hard bin, per soft bin, aborted)`.
pub open spec fn tally_fold(results: Seq<DieTestResult>, program: TestProgram, tax: BinTaxonomy) -> (nat, nat, Map<u16, u32>, Map<u16, u32>, nat)
    decreases results.len(),
{
    if results.len() == 0 {
        (0, 0, Map::empty(), Map::empty(), 0)
    } else {
        let (t, p, hb, sb, a) = tally_fold(results.drop_last(), program, tax);
        let r = results.last();
        let (passed, h, s, _) = sort_spec(r, program, tax);
        (t + 1, p + if passed { 1nat } else { 0nat }, bump(hb, h), bump(sb, s), a + if r.aborted { 1nat } else { 0nat })
    }
}

/// A count map's entries never exceed `n` when it was bumped `n` times.
pub open spec fn counts_at_most(m: Map<u16, u32>, n: nat) -> bool {
    forall|b: u16| #[trigger] m.contains_key(b) ==> m[b] <= n
}

proof fn lemma_tally_bounds(results: Seq<DieTestResult>, program: TestProgram, tax: BinTaxonomy)
    ensures
        ({
            let (t, p, hb, sb, a) = tally_fold(results, program, tax);
            &&& t == results.len()
            &&& p <= t
            &&& a <= t
            &&& counts_at_most(hb, t)
            &&& counts_at_most(sb, t)
        }),
    decreases results.len(),
{
    if results.len() > 0 {
        lemma_tally_bounds(results.drop_last(), program, tax);
    }
}

/// Build the run-level [`BinTally`] from a set of sorted results.
pub fn tally(results: &[DieTestResult], program: &TestProgram, taxonomy: &BinTaxonomy) -> (out: BinTally)
    requires
        results@.len() <= u32::MAX,
    ensures
        (out.total_tested as nat, out.total_passed as nat, out.hard_bins@, out.soft_bins@, out.aborted as nat)
            == tally_fold(results@, *program, *taxonomy),
{
    let mut out = BinTally::new();
    let mut i: usize = 0;
    while i < results.len()
        invariant
            i <= results@.len(),
            results@.len() <= u32::MAX,
            (out.total_tested as nat, out.total_passed as nat, out.hard_bins@, out.soft_bins@, out.aborted as nat)
                == tally_fold(results@.take(i as int), *program, *taxonomy),
        decreases results@.len() - i,
    {
        let ghost t = results@.take(i + 1);
        assert(t.drop_last() =~= results@.take(i as int));
        assert(t.last() == results@[i as int]);
        proof {
            lemma_tally_bounds(results@.take(i as int), *program, *taxonomy);
        }
        let assignment = sort_die(&results[i], program, taxonomy);
        out.record(assignment.passed, assignment.hard_bin, assignment.soft_bin);
        if results[i].aborted {
            out.aborted = out.aborted + 1;
        }
        i = i + 1;
    }
    assert(results@.take(i as int) =~= results@);
    out
}

} // verus!
