//! The test & assembly outcome: bin/yield data from wafer test, plus
//! package-level electrical results from post-assembly test.

use crate::aggregate::schema::ElectricalMeasurement;
use crate::bins::BinTally;
use crate::wafer::WaferDieMap;
use std::collections::BTreeMap;
use vstd::prelude::*;
use vstd::std_specs::iter::IteratorSpec;

verus! {

broadcast use vstd::std_specs::btree::group_btree_axioms;

/// One bucket of the bin distribution, with its privacy state.
#[derive(Debug, Clone, Copy, PartialEq, Eq, Structural)]
pub struct BinCount {
    pub count: u32,
    /// True once [`BinDistribution::redact_below_cohort`] suppressed the
    /// exact count (bucket too small to publish under the cohort rule).
    pub withheld: bool,
}

/// Bin/yield summary for the test & assembly stage, aggregated per the
/// minimum-cohort rule. The yield fraction is `total_passed /
/// total_tested`.
#[derive(Debug, Clone, PartialEq)]
pub struct BinDistribution {
    pub total_tested: u32,
    pub total_passed: u32,
    /// Dies per hardware bin. Counts marked withheld keep their keys but
    /// hide their sizes.
    pub hard_bins: BTreeMap<u16, BinCount>,
    pub soft_bins: BTreeMap<u16, BinCount>,
}

/// A tally's counts as buckets nobody has withheld yet.
pub open spec fn fresh_buckets(m: Map<u16, u32>) -> Map<u16, BinCount> {
    m.map_values(|c: u32| BinCount { count: c, withheld: false })
}

/// A bucket after the cohort rule at `min_cohort`: withheld when it
/// already was or when it holds fewer than `min_cohort` dies.
pub open spec fn redacted_bucket(b: BinCount, min_cohort: u32) -> BinCount {
    BinCount { count: b.count, withheld: b.withheld || b.count < min_cohort }
}

/// Every bucket of `m` after the cohort rule at `min_cohort`.
pub open spec fn redacted(m: Map<u16, BinCount>, min_cohort: u32) -> Map<u16, BinCount> {
    m.map_values(|b: BinCount| redacted_bucket(b, min_cohort))
}

/// The count a bucket publishes: exact when not withheld, otherwise the
/// cohort size as a lower bound.
pub open spec fn published(b: BinCount, min_cohort: u32) -> u32 {
    if b.withheld { min_cohort } else { b.count }
}

/// The entries of a map as its iterator hands them out, without
/// repetition and complete.
proof fn lemma_entries<V>(m: &BTreeMap<u16, V>, s: Seq<(u16, V)>)
    requires
        s == m.iter().remaining().unref(),
        m.iter().remaining().no_duplicates(),
    ensures
        s.to_set() == m@.kv_pairs(),
{
    assert(s.to_set() == m@.kv_pairs());
}

/// A tally's count map as fresh buckets.
fn fresh_map(m: &BTreeMap<u16, u32>) -> (r: BTreeMap<u16, BinCount>)
    ensures
        r@ == fresh_buckets(m@),
{
    let mut out: BTreeMap<u16, BinCount> = BTreeMap::new();
    let entries = m.iter();
    proof {
        lemma_entries(m, entries.remaining().unref());
    }
    for kv in it: entries
        invariant
            it.seq() == m.iter().remaining(),
            it.seq().unref().to_set() == m@.kv_pairs(),
            forall|j: int| 0 <= j < it.index() ==> #[trigger] out@.contains_key(it.seq().unref()[j].0),
            forall|k: u16| #[trigger] out@.contains_key(k) ==> m@.contains_key(k) && out@[k] == (BinCount { count: m@[k], withheld: false }),
    {
        let ghost s = it.seq().unref();
        let ghost i = it.index();
        assert(s.to_set().contains(s[i]));
        out.insert(*kv.0, BinCount { count: *kv.1, withheld: false });
        proof {
            assert forall|j: int| 0 <= j < i + 1 implies #[trigger] out@.contains_key(s[j].0) by {
                if j < i {
                    assert(out@.contains_key(s[j].0));
                }
            }
        }
    }
    proof {
        let s = m.iter().remaining().unref();
        assert forall|k: u16| #[trigger] m@.contains_key(k) implies out@.contains_key(k) by {
            assert(m@.kv_pairs().contains((k, m@[k])));
            let j = s.index_of((k, m@[k]));
            assert(s[j] == (k, m@[k]));
        }
        assert(out@ =~= fresh_buckets(m@));
    }
    out
}

/// A bucket map after the cohort rule at `min_cohort`.
fn redact_map(m: &BTreeMap<u16, BinCount>, min_cohort: u32) -> (r: BTreeMap<u16, BinCount>)
    ensures
        r@ == redacted(m@, min_cohort),
{
    let mut out: BTreeMap<u16, BinCount> = BTreeMap::new();
    let entries = m.iter();
    proof {
        lemma_entries(m, entries.remaining().unref());
    }
    for kv in it: entries
        invariant
            it.seq() == m.iter().remaining(),
            it.seq().unref().to_set() == m@.kv_pairs(),
            forall|j: int| 0 <= j < it.index() ==> #[trigger] out@.contains_key(it.seq().unref()[j].0),
            forall|k: u16| #[trigger] out@.contains_key(k) ==> m@.contains_key(k) && out@[k] == redacted_bucket(m@[k], min_cohort),
    {
        let ghost s = it.seq().unref();
        let ghost i = it.index();
        assert(s.to_set().contains(s[i]));
        let b = *kv.1;
        out.insert(*kv.0, BinCount { count: b.count, withheld: b.withheld || b.count < min_cohort });
        proof {
            assert forall|j: int| 0 <= j < i + 1 implies #[trigger] out@.contains_key(s[j].0) by {
                if j < i {
                    assert(out@.contains_key(s[j].0));
                }
            }
        }
    }
    proof {
        let s = m.iter().remaining().unref();
        assert forall|k: u16| #[trigger] m@.contains_key(k) implies out@.contains_key(k) by {
            assert(m@.kv_pairs().contains((k, m@[k])));
            let j = s.index_of((k, m@[k]));
            assert(s[j] == (k, m@[k]));
        }
        assert(out@ =~= redacted(m@, min_cohort));
    }
    out
}

impl BinDistribution {
    /// Build from the run tally produced by the bin sort.
    pub fn from_tally(tally: &BinTally) -> (d: BinDistribution)
        ensures
            d.total_tested == tally.total_tested,
            d.total_passed == tally.total_passed,
            d.hard_bins@ == fresh_buckets(tally.hard_bins@),
            d.soft_bins@ == fresh_buckets(tally.soft_bins@),
    {
        BinDistribution {
            total_tested: tally.total_tested,
            total_passed: tally.total_passed,
            hard_bins: fresh_map(&tally.hard_bins),
            soft_bins: fresh_map(&tally.soft_bins),
        }
    }

    /// The minimum-cohort rule, applied at the source: any bin bucket with
    /// fewer than `min_cohort` dies gets its exact count withheld before
    /// the report leaves, so an "aggregate of one data point" never ships.
    /// Callers working purely locally can pass 1.
    pub fn redact_below_cohort(&mut self, min_cohort: u32)
        ensures
            final(self).total_tested == old(self).total_tested,
            final(self).total_passed == old(self).total_passed,
            final(self).hard_bins@ == redacted(old(self).hard_bins@, min_cohort),
            final(self).soft_bins@ == redacted(old(self).soft_bins@, min_cohort),
    {
        let hard = redact_map(&self.hard_bins, min_cohort);
        let soft = redact_map(&self.soft_bins, min_cohort);
        self.hard_bins = hard;
        self.soft_bins = soft;
    }

    /// The publishable count of a bucket: exact when not withheld,
    /// otherwise a lower bound of `min_cohort` ("at least this many, no
    /// more detail").
    pub fn publishable_count(bucket: &BinCount, min_cohort: u32) -> (n: u32)
        ensures
            n == published(*bucket, min_cohort),
    {
        if bucket.withheld {
            min_cohort
        } else {
            bucket.count
        }
    }
}

/// After the cohort rule at `min_cohort`, no bucket publishes fewer than
/// `min_cohort` dies, every bucket keeps its exact count, and a bucket at
/// or above the cohort that was not withheld before still publishes its
/// exact count.
pub proof fn lemma_cohort_rule(m: Map<u16, BinCount>, min_cohort: u32, bin: u16)
    requires
        m.contains_key(bin),
    ensures
        redacted(m, min_cohort).contains_key(bin),
        published(redacted(m, min_cohort)[bin], min_cohort) >= min_cohort,
        redacted(m, min_cohort)[bin].count == m[bin].count,
        !m[bin].withheld && m[bin].count >= min_cohort ==> published(redacted(m, min_cohort)[bin], min_cohort) == m[bin].count,
{
}

/// Applying the cohort rule twice at the same size is the same as once.
pub proof fn lemma_redaction_idempotent(m: Map<u16, BinCount>, min_cohort: u32)
    ensures
        redacted(redacted(m, min_cohort), min_cohort) == redacted(m, min_cohort),
{
    assert(redacted(redacted(m, min_cohort), min_cohort) =~= redacted(m, min_cohort));
}

/// The test & assembly outcome, carried inside the report's test &
/// assembly track — not a parallel file format.
#[derive(Debug, Clone, PartialEq)]
pub struct TestOutcome {
    /// Per-die bin result keyed by physical wafer location, carried through
    /// unmodified from the layout output.
    pub wafer_map: WaferDieMap,
    /// Yield by bin category, aggregated per the minimum-cohort rule.
    pub bin_summary: BinDistribution,
    /// Post-assembly package test, same measurement shape as the report's
    /// electrical test.
    pub package_test: Vec<ElectricalMeasurement>,
}

impl TestOutcome {
    /// An empty outcome: a one-die wafer of 1.0 × 1.0 mil dies, an empty
    /// tally, no package test.
    pub fn empty() -> (o: TestOutcome)
        ensures
            o.wafer_map.wafer_id@ == "EMPTY"@,
            o.wafer_map.dies@ == crate::wafer::grid(1, 1),
            o.wafer_map.die_width_mils == 0x3f80_0000u32,
            o.wafer_map.die_height_mils == 0x3f80_0000u32,
            o.wafer_map.center == crate::wafer::DieCoord::new_spec(crate::wafer::half(1), crate::wafer::half(1)),
            o.bin_summary.total_tested == 0,
            o.bin_summary.total_passed == 0,
            o.bin_summary.hard_bins@ == Map::<u16, BinCount>::empty(),
            o.bin_summary.soft_bins@ == Map::<u16, BinCount>::empty(),
            o.package_test@.len() == 0,
    {
        let tally = BinTally::new();
        let d = BinDistribution::from_tally(&tally);
        proof {
            assert(fresh_buckets(Map::<u16, u32>::empty()) =~= Map::<u16, BinCount>::empty());
        }
        TestOutcome {
            wafer_map: WaferDieMap::rectangular("EMPTY", 1, 1, 0x3f80_0000u32, 0x3f80_0000u32),
            bin_summary: d,
            package_test: Vec::new(),
        }
    }
}

} // verus!
