//! Wafer map model: per-die state keyed by physical die location on the
//! wafer.
//!
//! Die-location data is carried through unmodified from the layout output:
//! no interchange transformation is applied. Coordinates are wafer-level
//! die indices: X increases right, Y increases up, origin per the source
//! layout. The map is keyed by `(x, y)` pairs, so it orders dies x-major,
//! then y, as [`DieCoord`] does.

use crate::text::{concat3, lemma_seq_count_set, seq_count, signed_decimal, signed_decimal_text};
use std::collections::BTreeMap;
use vstd::std_specs::iter::IteratorSpec;
use vstd::prelude::*;

verus! {

broadcast use {vstd::std_specs::btree::group_btree_axioms, vstd::laws_cmp::group_laws_cmp};

/// Physical die location on a wafer, in die-index coordinates.
#[derive(Debug, Clone, Copy, PartialEq, Eq, PartialOrd, Ord, Hash, Structural)]
pub struct DieCoord {
    pub x: i32,
    pub y: i32,
}

impl DieCoord {
    pub fn new(x: i32, y: i32) -> (c: DieCoord)
        ensures
            c.x == x && c.y == y,
    {
        DieCoord { x, y }
    }

    /// The map key of this coordinate.
    pub open spec fn key(self) -> (i32, i32) {
        (self.x, self.y)
    }

    /// The text `(x,y)`.
    pub fn to_string(&self) -> (s: String)
        ensures
            s@ == "("@ + signed_decimal(self.x as int) + ","@ + signed_decimal(self.y as int) + ")"@,
    {
        let xs = signed_decimal_text(self.x as i64);
        let ys = signed_decimal_text(self.y as i64);
        let head = concat3("(", xs.as_str(), ",");
        concat3(head.as_str(), ys.as_str(), ")")
    }
}

/// Test result for one die.
#[derive(Debug, Clone, Copy, PartialEq, Eq, Structural)]
pub struct DieTestOutcome {
    pub passed: bool,
    pub hard_bin: u16,
    pub soft_bin: u16,
}

/// State of one die on the map.
#[derive(Debug, Clone, Copy, PartialEq, Eq, Structural)]
pub enum DieState {
    /// Present on the wafer, not yet tested.
    Untested,
    /// Excluded from testing (edge exclusion, mark dies, etc.).
    Excluded,
    /// Tested; carries the bin assignment.
    Tested(DieTestOutcome),
}

/// Geometry of the wafer being tested: which die sites exist, their size in
/// mils (STDF WCR convention, as `R*4` bit patterns), and the coordinate of
/// the wafer center.
#[derive(Debug, Clone, PartialEq)]
pub struct WaferDieMap {
    pub wafer_id: String,
    /// All valid die sites (both testable and excluded ones), by `(x, y)`.
    pub dies: BTreeMap<(i32, i32), DieState>,
    /// Die height in mils (STDF WCR `DIE_HT`).
    pub die_height_mils: u32,
    /// Die width in mils (STDF WCR `DIE_WID`).
    pub die_width_mils: u32,
    /// Die coordinate of the wafer center (STDF WCR `CENTER_X/Y`).
    pub center: DieCoord,
}

/// The sites of a `cols` x `rows` grid, all untested.
pub open spec fn grid(cols: int, rows: int) -> Map<(i32, i32), DieState> {
    Map::new(|k: (i32, i32)| 0 <= k.0 < cols && 0 <= k.1 < rows, |k: (i32, i32)| DieState::Untested)
}

/// Half of `n`, rounded toward zero (Rust's integer division).
pub open spec fn half(n: i32) -> i32 {
    if n >= 0 { (n / 2) as i32 } else { (-((-n) / 2)) as i32 }
}

/// A map entry holds a tested die.
pub open spec fn is_tested(kv: ((i32, i32), DieState)) -> bool {
    kv.1 is Tested
}

/// A map entry holds a tested die that passed.
pub open spec fn is_passed(kv: ((i32, i32), DieState)) -> bool {
    kv.1 matches DieState::Tested(o) && o.passed
}

/// A map entry holds a tested die in hard bin `b`.
pub open spec fn in_hard_bin(b: u16) -> spec_fn(((i32, i32), DieState)) -> bool {
    |kv: ((i32, i32), DieState)| kv.1 matches DieState::Tested(o) && o.hard_bin == b
}

/// A map entry holds a tested die in soft bin `b`.
pub open spec fn in_soft_bin(b: u16) -> spec_fn(((i32, i32), DieState)) -> bool {
    |kv: ((i32, i32), DieState)| kv.1 matches DieState::Tested(o) && o.soft_bin == b
}

/// How many dies of the map satisfy `p`.
pub open spec fn die_count(m: Map<(i32, i32), DieState>, p: spec_fn(((i32, i32), DieState)) -> bool) -> nat {
    m.kv_pairs().filter(p).len()
}

/// A bin-count map: each bin that some tested die is in, with how many.
pub open spec fn bin_counts(r: Map<u16, u32>, m: Map<(i32, i32), DieState>, per_bin: spec_fn(u16) -> spec_fn(((i32, i32), DieState)) -> bool) -> bool {
    forall|b: u16| #![trigger r.contains_key(b)]
        (r.contains_key(b) <==> die_count(m, per_bin(b)) > 0) && (r.contains_key(b) ==> r[b] == die_count(m, per_bin(b)))
}

/// The per-key counts of a prefix of the map's entries.
pub open spec fn prefix_counts(r: Map<u16, u32>, s: Seq<((i32, i32), DieState)>, per_bin: spec_fn(u16) -> spec_fn(((i32, i32), DieState)) -> bool) -> bool {
    forall|b: u16| #![trigger r.contains_key(b)]
        (r.contains_key(b) <==> seq_count(s, per_bin(b)) > 0) && (r.contains_key(b) ==> r[b] == seq_count(s, per_bin(b)))
}

/// Coordinate keys are totally ordered.
proof fn lemma_keys_ordered()
    ensures
        vstd::laws_cmp::obeys_cmp::<(i32, i32)>(),
{
}

/// The map's entries, as the iterator hands them out, are its pairs without
/// repetition.
proof fn lemma_entries(m: &BTreeMap<(i32, i32), DieState>, s: Seq<((i32, i32), DieState)>)
    requires
        s == m.iter().remaining().unref(),
        m.iter().remaining().no_duplicates(),
    ensures
        s.no_duplicates(),
        s.to_set() == m@.kv_pairs(),
        s.len() == m@.len(),
{
    let r = m.iter().remaining();
    assert(s.no_duplicates()) by {
        assert forall|i: int, j: int| 0 <= i < s.len() && 0 <= j < s.len() && i != j implies s[i] != s[j] by {
            assert(r[i] != r[j]);
        }
    }
    assert(s.to_set() == m@.kv_pairs());
    assert(s.len() == m@.dom().len());
}

/// A map with finitely many sites has finitely many entries.
proof fn lemma_kv_pairs_finite(m: Map<(i32, i32), DieState>)
    requires
        m.dom().finite(),
    ensures
        m.kv_pairs().finite(),
{
    let f = |k: (i32, i32)| (k, m[k]);
    m.dom().lemma_map_finite(f);
    assert forall|kv: ((i32, i32), DieState)| #[trigger] m.kv_pairs().contains(kv) implies m.dom().map(f).contains(kv) by {
        assert(f(kv.0) == kv);
    }
    assert(m.kv_pairs() =~= m.dom().map(f));
}

/// Replacing the state of a site whose entry fails `p` raises the count of
/// entries satisfying `p` by one exactly when the new entry satisfies it.
pub proof fn lemma_die_count_replace(
    m: Map<(i32, i32), DieState>,
    key: (i32, i32),
    new: DieState,
    p: spec_fn(((i32, i32), DieState)) -> bool,
)
    requires
        m.dom().finite(),
        m.contains_key(key),
        !p((key, m[key])),
    ensures
        die_count(m.insert(key, new), p) == die_count(m, p) + if p((key, new)) { 1nat } else { 0nat },
{
    lemma_kv_pairs_finite(m);
    m.kv_pairs().lemma_len_filter(p);
    let a = m.kv_pairs().filter(p);
    let b = m.insert(key, new).kv_pairs().filter(p);
    if p((key, new)) {
        assert(!a.contains((key, new)));
        assert(b =~= a.insert((key, new)));
    } else {
        assert(b =~= a);
    }
}

impl WaferDieMap {
    /// A rectangular grid of testable dies centered at the grid middle:
    /// the synthetic wafer the simulator and tests run against.
    pub fn rectangular(wafer_id: &str, cols: i32, rows: i32, die_width_mils: u32, die_height_mils: u32) -> (w: WaferDieMap)
        ensures
            w.wafer_id@ == wafer_id@,
            w.dies@ == grid(cols as int, rows as int),
            w.die_width_mils == die_width_mils,
            w.die_height_mils == die_height_mils,
            w.center == DieCoord::new_spec(half(cols), half(rows)),
    {
        let mut dies: BTreeMap<(i32, i32), DieState> = BTreeMap::new();
        let mut x: i32 = 0;
        while x < cols
            invariant
                0 <= x,
                x <= cols || x == 0,
                forall|k: (i32, i32)| #[trigger] dies@.contains_key(k) <==> (0 <= k.0 < x && 0 <= k.1 < rows),
                forall|k: (i32, i32)| #[trigger] dies@.contains_key(k) ==> dies@[k] == DieState::Untested,
            decreases cols - x,
        {
            let mut y: i32 = 0;
            while y < rows
                invariant
                    0 <= x < cols,
                    0 <= y,
                    y <= rows || y == 0,
                    forall|k: (i32, i32)| #[trigger] dies@.contains_key(k) <==> ((0 <= k.0 < x && 0 <= k.1 < rows) || (k.0 == x && 0 <= k.1 < y)),
                    forall|k: (i32, i32)| #[trigger] dies@.contains_key(k) ==> dies@[k] == DieState::Untested,
                decreases rows - y,
            {
                dies.insert((x, y), DieState::Untested);
                y = y + 1;
            }
            let ghost xo = x;
            x = x + 1;
            assert forall|k: (i32, i32)| #[trigger] dies@.contains_key(k) <==> (0 <= k.0 < x && 0 <= k.1 < rows) by {
                assert((0 <= k.0 < x) <==> (0 <= k.0 < xo || k.0 == xo));
            }
        }
        assert(dies@ =~= grid(cols as int, rows as int));
        let cx: i32 = if cols >= 0 { cols / 2 } else { -((-(cols as i64)) / 2) as i32 };
        let cy: i32 = if rows >= 0 { rows / 2 } else { -((-(rows as i64)) / 2) as i32 };
        WaferDieMap { wafer_id: wafer_id.to_string(), dies, die_height_mils, die_width_mils, center: DieCoord::new(cx, cy) }
    }

    /// Record a test result for a die. Returns `false` if the coordinate is
    /// not a site that can be tested (absent or excluded).
    pub fn record(&mut self, coord: DieCoord, outcome: DieTestOutcome) -> (ok: bool)
        ensures
            ok == (old(self).dies@.contains_key(coord.key()) && !(old(self).dies@[coord.key()] is Excluded)),
            ok ==> final(self).dies@ == old(self).dies@.insert(coord.key(), DieState::Tested(outcome)),
            !ok ==> final(self).dies@ == old(self).dies@,
            final(self).wafer_id == old(self).wafer_id,
            final(self).die_height_mils == old(self).die_height_mils,
            final(self).die_width_mils == old(self).die_width_mils,
            final(self).center == old(self).center,
    {
        let key = (coord.x, coord.y);
        let testable = match self.dies.get(&key) {
            Some(DieState::Untested) => true,
            Some(DieState::Tested(_)) => true,
            _ => false,
        };
        if testable {
            self.dies.insert(key, DieState::Tested(outcome));
        }
        testable
    }

    /// Count of dies in each tested state bucket: (tested, passed).
    pub fn tested_counts(&self) -> (r: (u32, u32))
        requires
            self.dies@.len() <= u32::MAX,
        ensures
            r.0 == die_count(self.dies@, |kv: ((i32, i32), DieState)| is_tested(kv)),
            r.1 == die_count(self.dies@, |kv: ((i32, i32), DieState)| is_passed(kv)),
    {
        let ghost pt = |kv: ((i32, i32), DieState)| is_tested(kv);
        let ghost pp = |kv: ((i32, i32), DieState)| is_passed(kv);
        let mut tested: u32 = 0;
        let mut passed: u32 = 0;
        let ghost n = self.dies@.len();
        let entries = self.dies.iter();
        proof {
            lemma_keys_ordered();
            lemma_entries(&self.dies, entries.remaining().unref());
        }
        for kv in it: entries
            invariant
                n == self.dies@.len(),
                n <= u32::MAX,
                it.seq() == self.dies.iter().remaining(),
                it.seq().unref().len() == n,
                pt == (|kv: ((i32, i32), DieState)| is_tested(kv)),
                pp == (|kv: ((i32, i32), DieState)| is_passed(kv)),
                tested == seq_count(it.seq().unref().take(it.index()), pt),
                passed == seq_count(it.seq().unref().take(it.index()), pp),
                tested <= it.index(),
                passed <= it.index(),
        {
            let ghost s = it.seq().unref();
            let ghost i = it.index();
            assert(s.take(i + 1).drop_last() =~= s.take(i));
            assert(s.take(i + 1).last() == (*kv.0, *kv.1));
            assert(seq_count(s.take(i + 1), pt) == seq_count(s.take(i), pt) + if kv.1 is Tested { 1nat } else { 0nat });
            assert(seq_count(s.take(i + 1), pp) == seq_count(s.take(i), pp)
                + if (kv.1 matches DieState::Tested(o) && o.passed) { 1nat } else { 0nat });
            match kv.1 {
                DieState::Tested(o) => {
                    tested = tested + 1;
                    if o.passed {
                        passed = passed + 1;
                    }
                },
                _ => {},
            }
        }
        proof {
            let s = self.dies.iter().remaining().unref();
            lemma_entries(&self.dies, s);
            assert(s.take(s.len() as int) =~= s);
            lemma_seq_count_set(s, pt);
            lemma_seq_count_set(s, pp);
        }
        (tested, passed)
    }

    /// Dies per hardware bin, over tested dies only.
    pub fn hard_bin_counts(&self) -> (r: BTreeMap<u16, u32>)
        requires
            self.dies@.len() < u32::MAX,
        ensures
            bin_counts(r@, self.dies@, |b: u16| in_hard_bin(b)),
    {
        self.bin_counts_by(true)
    }

    /// Dies per software bin, over tested dies only.
    pub fn soft_bin_counts(&self) -> (r: BTreeMap<u16, u32>)
        requires
            self.dies@.len() < u32::MAX,
        ensures
            bin_counts(r@, self.dies@, |b: u16| in_soft_bin(b)),
    {
        self.bin_counts_by(false)
    }

    /// Dies per hardware (`hard`) or software bin, over tested dies only.
    fn bin_counts_by(&self, hard: bool) -> (r: BTreeMap<u16, u32>)
        requires
            self.dies@.len() < u32::MAX,
        ensures
            hard ==> bin_counts(r@, self.dies@, |b: u16| in_hard_bin(b)),
            !hard ==> bin_counts(r@, self.dies@, |b: u16| in_soft_bin(b)),
    {
        let ghost per_bin = if hard { |b: u16| in_hard_bin(b) } else { |b: u16| in_soft_bin(b) };
        let mut counts: BTreeMap<u16, u32> = BTreeMap::new();
        let ghost n = self.dies@.len();
        let entries = self.dies.iter();
        proof {
            lemma_keys_ordered();
            lemma_entries(&self.dies, entries.remaining().unref());
        }
        for kv in it: entries
            invariant
                n == self.dies@.len(),
                n < u32::MAX,
                it.seq() == self.dies.iter().remaining(),
                it.seq().unref().len() == n,
                per_bin == (if hard { |b: u16| in_hard_bin(b) } else { |b: u16| in_soft_bin(b) }),
                prefix_counts(counts@, it.seq().unref().take(it.index()), per_bin),
                forall|b: u16| #[trigger] counts@.contains_key(b) ==> counts@[b] <= it.index(),
        {
            let ghost s = it.seq().unref();
            let ghost i = it.index();
            let ghost pre = s.take(i);
            let ghost post = s.take(i + 1);
            let ghost item = (*kv.0, *kv.1);
            assert(post.drop_last() =~= pre);
            assert(post.last() == item);
            match kv.1 {
                DieState::Tested(o) => {
                    let bin = if hard { o.hard_bin } else { o.soft_bin };
                    let c = match counts.get(&bin) {
                        Some(c) => *c + 1,
                        None => 1,
                    };
                    let ghost before = counts@;
                    counts.insert(bin, c);
                    proof {
                        assert forall|b: u16| #![trigger counts@.contains_key(b)]
                            (counts@.contains_key(b) <==> seq_count(post, per_bin(b)) > 0)
                            && (counts@.contains_key(b) ==> counts@[b] == seq_count(post, per_bin(b))) by {
                            assert(per_bin(b)(item) == (b == bin));
                            if b != bin {
                                assert(before.contains_key(b) == counts@.contains_key(b));
                            }
                        }
                    }
                },
                _ => {
                    proof {
                        assert forall|b: u16| #![trigger counts@.contains_key(b)]
                            (counts@.contains_key(b) <==> seq_count(post, per_bin(b)) > 0)
                            && (counts@.contains_key(b) ==> counts@[b] == seq_count(post, per_bin(b))) by {
                            assert(!per_bin(b)(item));
                        }
                    }
                },
            }
        }
        proof {
            let s = self.dies.iter().remaining().unref();
            lemma_entries(&self.dies, s);
            assert(s.take(s.len() as int) =~= s);
            assert forall|b: u16| #![trigger counts@.contains_key(b)]
                (counts@.contains_key(b) <==> die_count(self.dies@, per_bin(b)) > 0)
                && (counts@.contains_key(b) ==> counts@[b] == die_count(self.dies@, per_bin(b))) by {
                lemma_seq_count_set(s, per_bin(b));
            }
        }
        counts
    }
}

impl DieCoord {
    pub open spec fn new_spec(x: i32, y: i32) -> DieCoord {
        DieCoord { x, y }
    }
}

} // verus!
