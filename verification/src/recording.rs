//! Wafer-run recording: assembles the STDF V4 record stream for one
//! simulated (or real) wafer-sort run: FAR/ATR/MIR up front, WIR/WCR per
//! wafer, PTR/FTR per die, TSR summaries, WRR/PCR/HBR/SBR counters, MRR
//! last.

use crate::bin_sort::{DieTestResult, MeasurementOutcome, PatternOutcome};
use crate::bins::{is_pass_bin, BinTally, BinTaxonomy, HardBin, SoftBin};
use crate::patterns::{PatternGroup, TestProgram, TestSpec};
use crate::stdf::codec::write::{le2, le4};
use crate::stdf::fields::FieldVal;
use crate::stdf::records::{
    test_flg, Atr, Bps, Eps, Far, Ftr, Gdr, Hbr, Mir, Mrr, Pcr, Pmr, Ptr, Record, RecordModel, Sbr, Tsr, Wcr, Wir,
    Wrr,
};
use crate::text::{concat2, push_bytes, str_bytes, string_bytes, string_from_utf8_lossy, text_of};
use crate::order::{lemma_bins_sorted, lemma_dies_sorted, lemma_keys_ordered, sorted_bins};
use crate::wafer::{DieCoord, DieState, DieTestOutcome, WaferDieMap};
use std::collections::BTreeMap;
use vstd::prelude::*;
use vstd::std_specs::iter::IteratorSpec;

verus! {

broadcast use {vstd::std_specs::btree::group_btree_axioms, vstd::laws_cmp::group_laws_cmp};

/// Run identity written into the MIR/ATR records.
#[derive(Debug, Clone)]
pub struct RunMetadata {
    pub node_name: String,
    pub tester_type: String,
    pub operator: String,
    /// Run start (STDF U*4 Unix time).
    pub start_t: u32,
    /// Run finish (STDF U*4 Unix time).
    pub finish_t: u32,
}

impl RunMetadata {
    /// The simulator's identity with the given run times.
    pub fn with_times(start_t: u32, finish_t: u32) -> (m: RunMetadata)
        ensures
            m.node_name@ == "TPT-SIM"@,
            m.tester_type@ == "TPT-SIM-ATE"@,
            m.operator@ == "tpt-ate-test"@,
            m.start_t == start_t,
            m.finish_t == finish_t,
    {
        RunMetadata {
            node_name: "TPT-SIM".to_string(),
            tester_type: "TPT-SIM-ATE".to_string(),
            operator: "tpt-ate-test".to_string(),
            start_t,
            finish_t,
        }
    }

    /// The simulator's identity for a run that started 15 minutes (900 s)
    /// before `finish_t`, or at time zero when `finish_t` is earlier.
    pub fn ending_at(finish_t: u32) -> (m: RunMetadata)
        ensures
            m.node_name@ == "TPT-SIM"@,
            m.tester_type@ == "TPT-SIM-ATE"@,
            m.operator@ == "tpt-ate-test"@,
            m.start_t == if finish_t >= 900 { finish_t - 900 } else { 0 },
            m.finish_t == finish_t,
    {
        let start_t = if finish_t >= 900 { finish_t - 900 } else { 0 };
        RunMetadata::with_times(start_t, finish_t)
    }
}

/// A count of seconds since the Unix epoch as an STDF `U*4` timestamp,
/// saturating at `u32::MAX`.
pub fn stdf_time(secs: u64) -> (t: u32)
    ensures
        secs <= u32::MAX ==> t == secs,
        secs > u32::MAX ==> t == u32::MAX,
{
    if secs > 0xFFFF_FFFFu64 {
        u32::MAX
    } else {
        secs as u32
    }
}

/// The executive version written into MIR `EXEC_VER`.
pub open spec fn exec_version() -> Seq<char> {
    "0.1.0"@
}

/// The `R*4` bit pattern of 150.0 (the WCR wafer size, in mm).
pub const WAFER_SIZE_150: u32 = 0x4316_0000;

// ----- dies in coordinate order -----------------------------------------------------

/// Coordinate order: x-major, then y.
pub open spec fn coord_le(a: DieCoord, b: DieCoord) -> bool {
    a.x < b.x || (a.x == b.x && a.y <= b.y)
}

/// `order` lists the indices of `rs` sorted by coordinate, ties in their
/// original order (a stable sort).
pub open spec fn stable_order(order: Seq<int>, rs: Seq<DieTestResult>) -> bool {
    &&& order.len() == rs.len()
    &&& order.no_duplicates()
    &&& forall|a: int| 0 <= a < order.len() ==> 0 <= #[trigger] order[a] < rs.len()
    &&& forall|a: int, b: int| 0 <= a < b < order.len() ==> coord_le(rs[order[a]].coord, rs[order[b]].coord)
    &&& forall|a: int, b: int| 0 <= a < b < order.len() && rs[order[a]].coord == rs[order[b]].coord ==> order[a] < order[b]
}

fn coord_leq(a: DieCoord, b: DieCoord) -> (r: bool)
    ensures
        r == coord_le(a, b),
{
    a.x < b.x || (a.x == b.x && a.y <= b.y)
}

/// Indices of `results` in stable coordinate order.
fn coordinate_order(results: &[DieTestResult]) -> (order: Vec<usize>)
    ensures
        stable_order(order@.map_values(|i: usize| i as int), results@),
{
    let mut order: Vec<usize> = Vec::new();
    let mut i: usize = 0;
    while i < results.len()
        invariant
            i <= results@.len(),
            order@.len() == i,
            forall|a: int| 0 <= a < order@.len() ==> #[trigger] order@[a] < i,
            forall|a: int, b: int| 0 <= a < b < order@.len() ==> order@[a] != order@[b],
            forall|a: int, b: int| 0 <= a < b < order@.len() ==>
                coord_le(results@[order@[a] as int].coord, results@[order@[b] as int].coord),
            forall|a: int, b: int| 0 <= a < b < order@.len()
                && results@[order@[a] as int].coord == results@[order@[b] as int].coord ==> order@[a] < order@[b],
        decreases results@.len() - i,
    {
        let c = results[i].coord;
        let mut p: usize = order.len();
        while p > 0 && !coord_leq(results[order[p - 1]].coord, c)
            invariant
                p <= order@.len(),
                order@.len() == i,
                forall|a: int| 0 <= a < order@.len() ==> #[trigger] order@[a] < i,
                i < results@.len(),
                results@.len() == results.len(),
                c == results@[i as int].coord,
                forall|a: int| p <= a < order@.len() ==> !coord_le(#[trigger] results@[order@[a] as int].coord, c),
            decreases p,
        {
            p = p - 1;
        }
        let ghost before = order@;
        order.insert(p, i);
        proof {
            assert(forall|a: int| 0 <= a < p ==> order@[a] == before[a]);
            assert(order@[p as int] == i);
            assert(forall|a: int| p < a < order@.len() ==> order@[a] == before[a - 1]);
            assert forall|a: int| 0 <= a < p implies coord_le(#[trigger] results@[before[a] as int].coord, c) by {
                if p > 0 {
                    assert(coord_le(results@[before[p - 1] as int].coord, c));
                    if a < p - 1 {
                        assert(coord_le(results@[before[a] as int].coord, results@[before[p - 1] as int].coord));
                    }
                }
            }
        }
        i = i + 1;
    }
    assert(order@.map_values(|i: usize| i as int).no_duplicates());
    order
}

// ----- per-test synopses -------------------------------------------------------------

/// The first test spec numbered `n`.
pub open spec fn find_test(tests: Seq<TestSpec>, n: u32) -> Option<TestSpec>
    decreases tests.len(),
{
    if tests.len() == 0 {
        None
    } else if tests[0].test_number == n {
        Some(tests[0])
    } else {
        find_test(tests.subrange(1, tests.len() as int), n)
    }
}

/// Whether the first measurement numbered `n` passed, if there is one.
pub open spec fn measurement_verdict(ms: Seq<MeasurementOutcome>, n: u32) -> Option<bool>
    decreases ms.len(),
{
    if ms.len() == 0 {
        None
    } else if ms[0].test_number == n {
        Some(ms[0].passed)
    } else {
        measurement_verdict(ms.subrange(1, ms.len() as int), n)
    }
}

/// Whether the first pattern group numbered `n` passed, if there is one.
pub open spec fn pattern_verdict(ps: Seq<PatternOutcome>, n: u32) -> Option<bool>
    decreases ps.len(),
{
    if ps.len() == 0 {
        None
    } else if ps[0].test_number == n {
        Some(ps[0].passed)
    } else {
        pattern_verdict(ps.subrange(1, ps.len() as int), n)
    }
}

/// `(executions, failures)` over the dies: a die counts when it executed
/// test `n` (its first measurement of that number).
pub open spec fn measurement_synopsis(rs: Seq<DieTestResult>, n: u32) -> (nat, nat)
    decreases rs.len(),
{
    if rs.len() == 0 {
        (0, 0)
    } else {
        let (e, f) = measurement_synopsis(rs.drop_last(), n);
        match measurement_verdict(rs.last().measurements@, n) {
            Some(p) => (e + 1, f + if p { 0nat } else { 1nat }),
            None => (e, f),
        }
    }
}

/// `(executions, failures)` of pattern group `n` over the dies.
pub open spec fn pattern_synopsis(rs: Seq<DieTestResult>, n: u32) -> (nat, nat)
    decreases rs.len(),
{
    if rs.len() == 0 {
        (0, 0)
    } else {
        let (e, f) = pattern_synopsis(rs.drop_last(), n);
        match pattern_verdict(rs.last().patterns@, n) {
            Some(p) => (e + 1, f + if p { 0nat } else { 1nat }),
            None => (e, f),
        }
    }
}

fn find_test_exec(tests: &Vec<TestSpec>, n: u32) -> (r: Option<&TestSpec>)
    ensures
        match find_test(tests@, n) {
            Some(t) => r matches Some(x) && *x == t,
            None => r is None,
        },
{
    let mut i: usize = 0;
    assert(tests@.subrange(0, tests@.len() as int) =~= tests@);
    while i < tests.len()
        invariant
            i <= tests@.len(),
            find_test(tests@, n) == find_test(tests@.subrange(i as int, tests@.len() as int), n),
        decreases tests@.len() - i,
    {
        let ghost rest = tests@.subrange(i as int, tests@.len() as int);
        assert(rest.subrange(1, rest.len() as int) =~= tests@.subrange(i + 1, tests@.len() as int));
        if tests[i].test_number == n {
            return Some(&tests[i]);
        }
        i = i + 1;
    }
    None
}

fn measurement_verdict_exec(ms: &Vec<MeasurementOutcome>, n: u32) -> (r: Option<bool>)
    ensures
        r == measurement_verdict(ms@, n),
{
    let mut i: usize = 0;
    assert(ms@.subrange(0, ms@.len() as int) =~= ms@);
    while i < ms.len()
        invariant
            i <= ms@.len(),
            measurement_verdict(ms@, n) == measurement_verdict(ms@.subrange(i as int, ms@.len() as int), n),
        decreases ms@.len() - i,
    {
        let ghost rest = ms@.subrange(i as int, ms@.len() as int);
        assert(rest.subrange(1, rest.len() as int) =~= ms@.subrange(i + 1, ms@.len() as int));
        if ms[i].test_number == n {
            return Some(ms[i].passed);
        }
        i = i + 1;
    }
    None
}

fn pattern_verdict_exec(ps: &Vec<PatternOutcome>, n: u32) -> (r: Option<bool>)
    ensures
        r == pattern_verdict(ps@, n),
{
    let mut i: usize = 0;
    assert(ps@.subrange(0, ps@.len() as int) =~= ps@);
    while i < ps.len()
        invariant
            i <= ps@.len(),
            pattern_verdict(ps@, n) == pattern_verdict(ps@.subrange(i as int, ps@.len() as int), n),
        decreases ps@.len() - i,
    {
        let ghost rest = ps@.subrange(i as int, ps@.len() as int);
        assert(rest.subrange(1, rest.len() as int) =~= ps@.subrange(i + 1, ps@.len() as int));
        if ps[i].test_number == n {
            return Some(ps[i].passed);
        }
        i = i + 1;
    }
    None
}

proof fn lemma_synopsis_bounds(rs: Seq<DieTestResult>, n: u32)
    ensures
        measurement_synopsis(rs, n).0 <= rs.len(),
        measurement_synopsis(rs, n).1 <= measurement_synopsis(rs, n).0,
        pattern_synopsis(rs, n).0 <= rs.len(),
        pattern_synopsis(rs, n).1 <= pattern_synopsis(rs, n).0,
    decreases rs.len(),
{
    if rs.len() > 0 {
        lemma_synopsis_bounds(rs.drop_last(), n);
    }
}

/// Executions and failures of measurement `n` over the dies.
fn summarize_measurement(results: &[DieTestResult], n: u32) -> (r: (u32, u32))
    requires
        results@.len() <= u32::MAX,
    ensures
        (r.0 as nat, r.1 as nat) == measurement_synopsis(results@, n),
{
    let mut exec: u32 = 0;
    let mut fail: u32 = 0;
    let mut i: usize = 0;
    while i < results.len()
        invariant
            i <= results@.len(),
            results@.len() <= u32::MAX,
            (exec as nat, fail as nat) == measurement_synopsis(results@.take(i as int), n),
        decreases results@.len() - i,
    {
        let ghost t = results@.take(i + 1);
        assert(t.drop_last() =~= results@.take(i as int));
        proof {
            lemma_synopsis_bounds(results@.take(i as int), n);
        }
        match measurement_verdict_exec(&results[i].measurements, n) {
            Some(passed) => {
                exec = exec + 1;
                if !passed {
                    fail = fail + 1;
                }
            },
            None => {},
        }
        i = i + 1;
    }
    assert(results@.take(i as int) =~= results@);
    (exec, fail)
}

/// Executions and failures of pattern group `n` over the dies.
fn summarize_pattern(results: &[DieTestResult], n: u32) -> (r: (u32, u32))
    requires
        results@.len() <= u32::MAX,
    ensures
        (r.0 as nat, r.1 as nat) == pattern_synopsis(results@, n),
{
    let mut exec: u32 = 0;
    let mut fail: u32 = 0;
    let mut i: usize = 0;
    while i < results.len()
        invariant
            i <= results@.len(),
            results@.len() <= u32::MAX,
            (exec as nat, fail as nat) == pattern_synopsis(results@.take(i as int), n),
        decreases results@.len() - i,
    {
        let ghost t = results@.take(i + 1);
        assert(t.drop_last() =~= results@.take(i as int));
        proof {
            lemma_synopsis_bounds(results@.take(i as int), n);
        }
        match pattern_verdict_exec(&results[i].patterns, n) {
            Some(passed) => {
                exec = exec + 1;
                if !passed {
                    fail = fail + 1;
                }
            },
            None => {},
        }
        i = i + 1;
    }
    assert(results@.take(i as int) =~= results@);
    (exec, fail)
}


// ----- the wafer map inside a GDR --------------------------------------------------

/// A die of the map as the GDR carries it: its coordinate and, when tested,
/// its outcome.
pub open spec fn snapshot_entry(kv: ((i32, i32), DieState)) -> (DieCoord, Option<DieTestOutcome>) {
    (DieCoord { x: kv.0.0, y: kv.0.1 }, match kv.1 {
        DieState::Tested(o) => Some(o),
        _ => None,
    })
}

/// The 13 bytes of one GDR die entry: x, y (`i32`), hard bin, soft bin
/// (`u16`), passed (`u8`), all little-endian; zeros for an untested die.
pub open spec fn entry_bytes(e: (DieCoord, Option<DieTestOutcome>)) -> Seq<u8> {
    le4(e.0.x as u32) + le4(e.0.y as u32) + match e.1 {
        Some(o) => le2(o.hard_bin) + le2(o.soft_bin) + seq![if o.passed { 1u8 } else { 0u8 }],
        None => seq![0u8, 0u8, 0u8, 0u8, 0u8],
    }
}

/// A little-endian 16-bit value.
pub open spec fn le_u16(b0: u8, b1: u8) -> u16 {
    (b0 as int + 256 * b1 as int) as u16
}

/// A little-endian 32-bit value.
pub open spec fn le_u32(b0: u8, b1: u8, b2: u8, b3: u8) -> u32 {
    (b0 as int + 256 * b1 as int + 65536 * b2 as int + 16777216 * b3 as int) as u32
}

/// One GDR die entry read back; an all-zero outcome reads as untested.
pub open spec fn entry_of(b: Seq<u8>) -> (DieCoord, Option<DieTestOutcome>) {
    let x = le_u32(b[0], b[1], b[2], b[3]) as i32;
    let y = le_u32(b[4], b[5], b[6], b[7]) as i32;
    let hard = le_u16(b[8], b[9]);
    let soft = le_u16(b[10], b[11]);
    let passed = b[12] != 0;
    (DieCoord { x, y }, if hard == 0 && soft == 0 && !passed {
        None
    } else {
        Some(DieTestOutcome { passed, hard_bin: hard, soft_bin: soft })
    })
}

pub open spec fn enc_entry() -> spec_fn((DieCoord, Option<DieTestOutcome>)) -> Seq<u8> {
    |e: (DieCoord, Option<DieTestOutcome>)| entry_bytes(e)
}

pub open spec fn dec_entry() -> spec_fn(Seq<u8>) -> (DieCoord, Option<DieTestOutcome>) {
    |b: Seq<u8>| entry_of(b)
}

/// `es` lists the map's entries without repetition, in strictly increasing
/// coordinate order.
pub open spec fn sorted_dies(es: Seq<((i32, i32), DieState)>, m: Map<(i32, i32), DieState>) -> bool {
    &&& es.to_set() == m.kv_pairs()
    &&& forall|i: int, j: int| 0 <= i < j < es.len() ==> (es[i].0.0 < es[j].0.0 || (es[i].0.0 == es[j].0.0 && es[i].0.1 < es[j].0.1))
}

/// The GDR payload for a wafer whose dies are `es` in coordinate order: the
/// wafer ID's length (one byte) and bytes, then each die's entry.
pub open spec fn gdr_bytes(wafer_id: Seq<char>, es: Seq<((i32, i32), DieState)>) -> Seq<u8> {
    seq![str_bytes(wafer_id).len() as u8] + str_bytes(wafer_id)
        + crate::secs::item::flat(es.map_values(|kv: ((i32, i32), DieState)| snapshot_entry(kv)), enc_entry())
}

/// The decoded GDR: wafer ID and the entries that follow, or nothing for an
/// empty payload.
pub open spec fn decode_gdr(d: Seq<u8>) -> Option<(Seq<char>, Seq<(DieCoord, Option<DieTestOutcome>)>)> {
    if d.len() == 0 {
        None
    } else {
        let n = d[0] as int;
        Some((text_of(d.subrange(1, 1 + n)), crate::secs::item::unflat(d.skip(1 + n), 13, dec_entry())))
    }
}

/// The wafer map as decoded from the GDR payload: wafer ID plus per-die
/// (coordinate, tested-outcome) entries in coordinate order.
#[derive(Debug, Clone, PartialEq)]
pub struct WaferMapSnapshot {
    pub wafer_id: String,
    pub dies: Vec<(DieCoord, Option<DieTestOutcome>)>,
}

proof fn lemma_le2(v: u16)
    ensures
        le_u16(le2(v)[0], le2(v)[1]) == v,
{
    assert((v % 256) as u8 as int + 256 * ((v / 256) as u8 as int) == v as int) by (nonlinear_arith);
}

proof fn lemma_le4(v: u32)
    ensures
        le_u32(le4(v)[0], le4(v)[1], le4(v)[2], le4(v)[3]) == v,
{
    assert((v % 256) as u8 as int + 256 * ((v / 256) % 256) as u8 as int + 65536 * ((v / 65536) % 256) as u8 as int
        + 16777216 * (v / 16777216) as u8 as int == v as int) by (bit_vector);
}

/// The layout of one GDR die entry: 13 bytes holding x and y as
/// little-endian 32-bit values, then, for a tested die, the hard bin and the
/// soft bin as little-endian 16-bit values and 1 or 0 for pass or fail;
/// an untested die has zeros in those five bytes.
pub proof fn lemma_gdr_entry_layout(e: (DieCoord, Option<DieTestOutcome>))
    ensures
        ({
            let b = entry_bytes(e);
            let x = e.0.x as u32;
            let y = e.0.y as u32;
            &&& b.len() == 13
            &&& b.subrange(0, 4) == seq![(x % 256) as u8, ((x / 256) % 256) as u8, ((x / 65536) % 256) as u8, (x / 16777216) as u8]
            &&& b.subrange(4, 8) == seq![(y % 256) as u8, ((y / 256) % 256) as u8, ((y / 65536) % 256) as u8, (y / 16777216) as u8]
            &&& match e.1 {
                Some(o) => {
                    &&& b.subrange(8, 10) == seq![(o.hard_bin % 256) as u8, (o.hard_bin / 256) as u8]
                    &&& b.subrange(10, 12) == seq![(o.soft_bin % 256) as u8, (o.soft_bin / 256) as u8]
                    &&& b[12] == if o.passed { 1u8 } else { 0u8 }
                },
                None => b.subrange(8, 13) == seq![0u8, 0u8, 0u8, 0u8, 0u8],
            }
        }),
{
    let b = entry_bytes(e);
    assert(b.subrange(0, 4) =~= le4(e.0.x as u32));
    assert(b.subrange(4, 8) =~= le4(e.0.y as u32));
    match e.1 {
        Some(o) => {
            assert(b.subrange(8, 10) =~= le2(o.hard_bin));
            assert(b.subrange(10, 12) =~= le2(o.soft_bin));
        },
        None => {
            assert(b.subrange(8, 13) =~= seq![0u8, 0u8, 0u8, 0u8, 0u8]);
        },
    }
}

/// The layout of a wafer's GDR payload: the wafer ID's byte length, its
/// bytes, then one 13-byte entry per die in the order given, the `i`-th at
/// offset `1 + length + 13 * i`.
pub proof fn lemma_gdr_payload_layout(wafer_id: Seq<char>, es: Seq<((i32, i32), DieState)>, i: int)
    requires
        str_bytes(wafer_id).len() <= 255,
        0 <= i < es.len(),
    ensures
        ({
            let n = str_bytes(wafer_id).len() as int;
            let d = gdr_bytes(wafer_id, es);
            &&& d.len() == 1 + n + 13 * es.len()
            &&& d[0] == n
            &&& d.subrange(1, 1 + n) == str_bytes(wafer_id)
            &&& d.subrange(1 + n + 13 * i, 1 + n + 13 * i + 13) == entry_bytes(snapshot_entry(es[i]))
        }),
{
    let v = es.map_values(|kv: ((i32, i32), DieState)| snapshot_entry(kv));
    let idb = str_bytes(wafer_id);
    let n = idb.len() as int;
    let body = crate::secs::item::flat(v, enc_entry());
    let d = gdr_bytes(wafer_id, es);
    assert forall|e: (DieCoord, Option<DieTestOutcome>)| #[trigger] enc_entry()(e).len() == 13 by {
        lemma_entry_roundtrip(e);
    }
    crate::secs::item::lemma_flat_index(v, i, 13, enc_entry());
    assert(v[i] == snapshot_entry(es[i]));
    assert(d =~= seq![n as u8] + idb + body);
    assert(13 * i == i * 13) by (nonlinear_arith);
    assert(v.len() * 13 == 13 * es.len()) by (nonlinear_arith)
        requires
            v.len() == es.len(),
    ;
    assert(d.subrange(1, 1 + n) =~= idb);
    assert(d.subrange(1 + n + 13 * i, 1 + n + 13 * i + 13) =~= body.subrange(13 * i, 13 * i + 13));
}

/// Reading one GDR die entry: bytes 8-9 are the hard bin and 10-11 the soft
/// bin, little-endian, and byte 12 is nonzero for a pass; the die reads as
/// tested unless all five of those bytes are zero.
pub proof fn lemma_gdr_entry_read(b: Seq<u8>)
    requires
        b.len() == 13,
    ensures
        ({
            let hard = b[8] as int + 256 * b[9] as int;
            let soft = b[10] as int + 256 * b[11] as int;
            match entry_of(b).1 {
                Some(o) => o.hard_bin == hard && o.soft_bin == soft && o.passed == (b[12] != 0)
                    && !(hard == 0 && soft == 0 && b[12] == 0),
                None => hard == 0 && soft == 0 && b[12] == 0,
            }
        }),
{
}

/// How an entry reads back from its GDR bytes: as written, except that a
/// tested die with the all-zero failing outcome (no pass, hard and soft bin
/// 0) is indistinguishable from an untested one and reads as untested.
pub open spec fn read_entry(e: (DieCoord, Option<DieTestOutcome>)) -> (DieCoord, Option<DieTestOutcome>) {
    match e.1 {
        Some(o) => if o.hard_bin == 0 && o.soft_bin == 0 && !o.passed { (e.0, None) } else { e },
        None => e,
    }
}

/// A die entry reads back from its bytes as [`read_entry`] says.
proof fn lemma_entry_roundtrip(e: (DieCoord, Option<DieTestOutcome>))
    ensures
        entry_bytes(e).len() == 13,
        entry_of(entry_bytes(e)) == read_entry(e),
{
    let b = entry_bytes(e);
    let x = e.0.x;
    let y = e.0.y;
    lemma_le4(x as u32);
    lemma_le4(y as u32);
    assert((x as u32) as i32 == x) by (bit_vector);
    assert((y as u32) as i32 == y) by (bit_vector);
    match e.1 {
        Some(o) => {
            lemma_le2(o.hard_bin);
            lemma_le2(o.soft_bin);
        },
        None => {},
    }
}

/// Decoding chunks of encoded entries gives each entry back as it reads.
proof fn lemma_entries_roundtrip(v: Seq<(DieCoord, Option<DieTestOutcome>)>)
    ensures
        crate::secs::item::unflat(crate::secs::item::flat(v, enc_entry()), 13, dec_entry())
            == v.map_values(|e: (DieCoord, Option<DieTestOutcome>)| read_entry(e)),
    decreases v.len(),
{
    let b = crate::secs::item::flat(v, enc_entry());
    let rv = v.map_values(|e: (DieCoord, Option<DieTestOutcome>)| read_entry(e));
    if v.len() == 0 {
        assert(rv =~= Seq::<(DieCoord, Option<DieTestOutcome>)>::empty());
    } else {
        let t = v.subrange(1, v.len() as int);
        lemma_entries_roundtrip(t);
        let e0 = enc_entry()(v[0]);
        lemma_entry_roundtrip(v[0]);
        assert(b =~= e0 + crate::secs::item::flat(t, enc_entry()));
        assert(b.take(13) =~= e0);
        assert(b.skip(13) =~= crate::secs::item::flat(t, enc_entry()));
        assert(rv =~= seq![read_entry(v[0])] + t.map_values(|e: (DieCoord, Option<DieTestOutcome>)| read_entry(e)));
    }
}

/// A wafer map travels through its GDR payload: decoding the payload written
/// for a wafer gives its ID and every die, in coordinate order, with its
/// outcome when tested; a tested die with the all-zero failing outcome
/// reads back as untested. Holds when the ID fits the one-byte length.
pub proof fn lemma_gdr_roundtrip(wafer_id: Seq<char>, es: Seq<((i32, i32), DieState)>)
    requires
        str_bytes(wafer_id).len() <= 255,
    ensures
        decode_gdr(gdr_bytes(wafer_id, es)) == Some((wafer_id,
            es.map_values(|kv: ((i32, i32), DieState)| read_entry(snapshot_entry(kv))))),
{
    let v = es.map_values(|kv: ((i32, i32), DieState)| snapshot_entry(kv));
    let idb = str_bytes(wafer_id);
    let d = gdr_bytes(wafer_id, es);
    let body = crate::secs::item::flat(v, enc_entry());
    assert(d =~= seq![idb.len() as u8] + idb + body);
    assert(d.subrange(1, 1 + idb.len() as int) =~= idb);
    assert(d.skip(1 + idb.len() as int) =~= body);
    crate::text::lemma_text_of_str_bytes(wafer_id);
    lemma_entries_roundtrip(v);
    assert(v.map_values(|e: (DieCoord, Option<DieTestOutcome>)| read_entry(e))
        =~= es.map_values(|kv: ((i32, i32), DieState)| read_entry(snapshot_entry(kv))));
}

/// GDR payload: wafer ID length + ID, then per die (in coordinate order)
/// x:i32, y:i32, hard_bin:u16, soft_bin:u16, passed:u8, all little-endian.
/// This is how the wafer map rides inside the STDF file itself.
fn encode_wafer_map_gdr(wafer: &WaferDieMap) -> (out: Vec<u8>)
    ensures
        exists|es: Seq<((i32, i32), DieState)>| sorted_dies(es, wafer.dies@) && out@ == gdr_bytes(wafer.wafer_id@, es),
{
    let mut out: Vec<u8> = Vec::new();
    let id = string_bytes(&wafer.wafer_id);
    out.push(#[verifier::truncate] (id.len() as u8));
    push_bytes(&mut out, id.as_slice());
    let ghost head = out@;
    let entries = wafer.dies.iter();
    proof {
        lemma_keys_ordered();
        lemma_dies_sorted(&wafer.dies);
    }
    let ghost es = entries.remaining().unref();
    assert(crate::secs::item::flat(Seq::<(DieCoord, Option<DieTestOutcome>)>::empty(), enc_entry()) =~= Seq::<u8>::empty());
    assert(es.take(0).map_values(|kv: ((i32, i32), DieState)| snapshot_entry(kv)) =~= Seq::<(DieCoord, Option<DieTestOutcome>)>::empty());
    for kv in it: entries
        invariant
            it.seq().unref() == es,
            out@ == head + crate::secs::item::flat(es.take(it.index()).map_values(|kv: ((i32, i32), DieState)| snapshot_entry(kv)), enc_entry()),
    {
        let ghost i = it.index();
        let ghost e = snapshot_entry((*kv.0, *kv.1));
        let (x, y) = *kv.0;
        crate::stdf::codec::write::u4(&mut out, x as u32);
        crate::stdf::codec::write::u4(&mut out, y as u32);
        match kv.1 {
            DieState::Tested(o) => {
                crate::stdf::codec::write::u2(&mut out, o.hard_bin);
                crate::stdf::codec::write::u2(&mut out, o.soft_bin);
                out.push(if o.passed { 1 } else { 0 });
            },
            _ => {
                out.push(0);
                out.push(0);
                out.push(0);
                out.push(0);
                out.push(0);
            },
        }
        proof {
            let pre = es.take(i).map_values(|kv: ((i32, i32), DieState)| snapshot_entry(kv));
            let post = es.take(i + 1).map_values(|kv: ((i32, i32), DieState)| snapshot_entry(kv));
            assert(es[i] == (*kv.0, *kv.1));
            assert(post =~= pre.push(e));
            crate::secs::item::lemma_flat_push(pre, e, enc_entry());
        }
        assert(out@ =~= head + crate::secs::item::flat(es.take(i + 1).map_values(|kv: ((i32, i32), DieState)| snapshot_entry(kv)), enc_entry()));
    }
    assert(es.take(es.len() as int) =~= es);
    assert(out@ =~= gdr_bytes(wafer.wafer_id@, es));
    out
}

/// Decode the GDR payload written for a wafer map.
pub fn decode_wafer_map_gdr(gdr: &Gdr) -> (r: Option<WaferMapSnapshot>)
    requires
        gdr.gen_data@.len() > 0 ==> gdr.gen_data@.len() >= 1 + gdr.gen_data@[0],
    ensures
        match decode_gdr(gdr.gen_data@) {
            Some((id, dies)) => r matches Some(s) && s.wafer_id@ == id && s.dies@ == dies,
            None => r is None,
        },
{
    let data = &gdr.gen_data;
    if data.len() == 0 {
        return None;
    }
    let id_len = data[0] as usize;
    let id = string_from_utf8_lossy(vstd::slice::slice_subrange(data.as_slice(), 1, 1 + id_len));
    let ghost rest0 = data@.skip(1 + id_len);
    let mut pos: usize = 1 + id_len;
    let mut dies: Vec<(DieCoord, Option<DieTestOutcome>)> = Vec::new();
    assert(data@.skip(pos as int) =~= rest0);
    assert(dies@ + crate::secs::item::unflat(rest0, 13, dec_entry()) =~= crate::secs::item::unflat(rest0, 13, dec_entry()));
    while data.len() - pos >= 13
        invariant
            1 + id_len <= pos <= data@.len(),
            rest0 == data@.skip(1 + id_len),
            dies@ + crate::secs::item::unflat(data@.skip(pos as int), 13, dec_entry()) == crate::secs::item::unflat(rest0, 13, dec_entry()),
        decreases data@.len() - pos,
    {
        let b = vstd::slice::slice_subrange(data.as_slice(), pos, pos + 13);
        let x = (b[0] as u32 + 256 * (b[1] as u32) + 65536 * (b[2] as u32) + 16777216 * (b[3] as u32)) as i32;
        let y = (b[4] as u32 + 256 * (b[5] as u32) + 65536 * (b[6] as u32) + 16777216 * (b[7] as u32)) as i32;
        let hard = b[8] as u16 + 256 * (b[9] as u16);
        let soft = b[10] as u16 + 256 * (b[11] as u16);
        let passed = b[12] != 0;
        let tested = if hard == 0 && soft == 0 && !passed {
            None
        } else {
            Some(DieTestOutcome { passed, hard_bin: hard, soft_bin: soft })
        };
        let entry = (DieCoord::new(x, y), tested);
        proof {
            let s = data@.skip(pos as int);
            assert(s.take(13) =~= b@);
            assert(s.skip(13) =~= data@.skip(pos + 13));
            assert(entry == entry_of(b@));
            assert(dies@.push(entry) + crate::secs::item::unflat(s.skip(13), 13, dec_entry())
                =~= dies@ + crate::secs::item::unflat(s, 13, dec_entry()));
        }
        dies.push(entry);
        pos = pos + 13;
    }
    assert(dies@ + crate::secs::item::unflat(data@.skip(pos as int), 13, dec_entry()) =~= dies@);
    Some(WaferMapSnapshot { wafer_id: id, dies })
}


// ----- the record stream ------------------------------------------------------------

/// The views of a run of records.
pub open spec fn views(rs: Seq<Record>) -> Seq<RecordModel> {
    rs.map_values(|r: Record| r@)
}

/// The empty text.
pub open spec fn none_text() -> Seq<char> {
    Seq::empty()
}

/// FAR, ATR, MIR, PMR, WIR, WCR: the records ahead of the per-die data.
pub open spec fn head_models(program: TestProgram, wafer: WaferDieMap, meta: RunMetadata) -> Seq<RecordModel> {
    let t = meta.start_t;
    let e = none_text();
    seq![
        RecordModel { typ: 0, sub: 10, fields: seq![FieldVal::U1(3), FieldVal::U1(4)] },
        RecordModel { typ: 0, sub: 20, fields: seq![FieldVal::U4(t), FieldVal::Cn("tpt-ate-test wafer sort: "@ + program.design_name@)] },
        RecordModel { typ: 1, sub: 10, fields: seq![FieldVal::U4(t), FieldVal::U4(t), FieldVal::U1(0), FieldVal::U1(32),
            FieldVal::U1(32), FieldVal::U1(32), FieldVal::U2(0), FieldVal::U1(0)] + seq![
            FieldVal::Cn(program.lot_id@), FieldVal::Cn(program.part_type@), FieldVal::Cn(meta.node_name@),
            FieldVal::Cn(meta.tester_type@), FieldVal::Cn(program.design_name@), FieldVal::Cn(e),
            FieldVal::Cn(wafer.wafer_id@), FieldVal::Cn(meta.operator@), FieldVal::Cn("tpt-ate-test"@),
            FieldVal::Cn(exec_version()), FieldVal::Cn("W"@)] + Seq::new(19, |i: int| FieldVal::Cn(e)) },
        RecordModel { typ: 5, sub: 10, fields: seq![FieldVal::U2(1), FieldVal::U2(0), FieldVal::Cn("SIM-CHAN-1"@),
            FieldVal::Cn("PHYS-1"@), FieldVal::Cn("LOG-1"@), FieldVal::U1(1), FieldVal::U1(1)] },
        RecordModel { typ: 2, sub: 10, fields: seq![FieldVal::U1(1), FieldVal::U1(0), FieldVal::U4(t), FieldVal::Cn(wafer.wafer_id@)] },
        RecordModel { typ: 2, sub: 30, fields: seq![FieldVal::R4(WAFER_SIZE_150), FieldVal::R4(wafer.die_height_mils),
            FieldVal::R4(wafer.die_width_mils), FieldVal::U1(3), FieldVal::U1(4), FieldVal::I2(wafer.center.x as i16),
            FieldVal::I2(wafer.center.y as i16), FieldVal::U1(82), FieldVal::U1(84)] },
    ]
}

/// The PTR for one measurement: name, unit and limits from the program's
/// first test of that number (empty/zero when it has none); TEST_FLG marks
/// a failure.
pub open spec fn ptr_model(m: MeasurementOutcome, tests: Seq<TestSpec>) -> RecordModel {
    let spec = find_test(tests, m.test_number);
    let name = match spec { Some(s) => s.name@, None => none_text() };
    let unit = match spec { Some(s) => s.unit@, None => none_text() };
    let lo: u32 = match spec { Some(s) => match s.lo_limit { Some(v) => v, None => 0 }, None => 0 };
    let hi: u32 = match spec { Some(s) => match s.hi_limit { Some(v) => v, None => 0 }, None => 0 };
    RecordModel { typ: 15, sub: 10, fields: seq![FieldVal::U4(m.test_number), FieldVal::U1(1), FieldVal::U1(1),
        FieldVal::U1(if m.passed { 0u8 } else { 1u8 }), FieldVal::U1(0x10), FieldVal::R4(m.value), FieldVal::Cn(name),
        FieldVal::Cn(none_text()), FieldVal::U1(0), FieldVal::I1(0), FieldVal::I1(0), FieldVal::I1(0), FieldVal::R4(lo),
        FieldVal::R4(hi), FieldVal::Cn(unit)] }
}

/// The FTR for one pattern-group execution.
pub open spec fn ftr_model(p: PatternOutcome) -> RecordModel {
    RecordModel { typ: 15, sub: 20, fields: seq![FieldVal::U4(p.test_number), FieldVal::U1(1), FieldVal::U1(1),
        FieldVal::U1(if p.passed { 8u8 } else { 9u8 }), FieldVal::U1(0), FieldVal::U4(0), FieldVal::U4(0), FieldVal::U4(0),
        FieldVal::U4(if p.passed { 0u32 } else { 1u32 }), FieldVal::I2(0), FieldVal::I2(0), FieldVal::I2(0), FieldVal::U2(0),
        FieldVal::U2(0), FieldVal::U2(0), FieldVal::U2(0), FieldVal::Sn(Seq::empty()), FieldVal::Sn(seq![p.name@]),
        FieldVal::Absent, FieldVal::Absent, FieldVal::Absent, FieldVal::Absent] }
}

/// One die's records: BPS, a PTR per measurement, an FTR per pattern
/// group, EPS.
pub open spec fn die_block(r: DieTestResult, tests: Seq<TestSpec>) -> Seq<RecordModel> {
    seq![RecordModel { typ: 20, sub: 15, fields: Seq::empty() }]
        + r.measurements@.map_values(|m: MeasurementOutcome| ptr_model(m, tests))
        + r.patterns@.map_values(|p: PatternOutcome| ftr_model(p))
        + seq![RecordModel { typ: 20, sub: 20, fields: Seq::empty() }]
}

/// The dies' records, in the given order.
pub open spec fn die_blocks(rs: Seq<DieTestResult>, order: Seq<int>, tests: Seq<TestSpec>) -> Seq<RecordModel>
    decreases order.len(),
{
    if order.len() == 0 {
        Seq::empty()
    } else {
        die_blocks(rs, order.drop_last(), tests) + die_block(rs[order.last()], tests)
    }
}

/// A TSR: head 1, site 255, type, number, counts, name.
pub open spec fn tsr_model(typ: u8, n: u32, counts: (nat, nat), name: Seq<char>) -> RecordModel {
    RecordModel { typ: 5, sub: 30, fields: seq![FieldVal::U1(1), FieldVal::U1(255), FieldVal::U1(typ), FieldVal::U4(n),
        FieldVal::U4(counts.0 as u32), FieldVal::U4(counts.1 as u32), FieldVal::U4(0), FieldVal::Cn(name),
        FieldVal::Cn(none_text()), FieldVal::Cn(none_text())] }
}

/// The parametric synopses, one per program test.
pub open spec fn test_synopses(tests: Seq<TestSpec>, rs: Seq<DieTestResult>) -> Seq<RecordModel> {
    tests.map_values(|s: TestSpec| tsr_model(80, s.test_number, measurement_synopsis(rs, s.test_number), s.name@))
}

/// The functional synopses, one per program pattern group.
pub open spec fn group_synopses(groups: Seq<PatternGroup>, rs: Seq<DieTestResult>) -> Seq<RecordModel> {
    groups.map_values(|g: PatternGroup| tsr_model(70, g.test_number, pattern_synopsis(rs, g.test_number), g.name@))
}

/// WRR, then the PCRs for site 1 and for all sites (255).
pub open spec fn counter_models(meta: RunMetadata, wafer: WaferDieMap, tested: u32, passed: u32, aborted: u32) -> Seq<RecordModel> {
    let e = none_text();
    seq![
        RecordModel { typ: 2, sub: 20, fields: seq![FieldVal::U1(1), FieldVal::U1(0), FieldVal::U4(meta.finish_t),
            FieldVal::U4(tested), FieldVal::U4(0), FieldVal::U4(aborted), FieldVal::U4(passed), FieldVal::U4(0),
            FieldVal::Cn(wafer.wafer_id@), FieldVal::Cn(e), FieldVal::Cn(e), FieldVal::Cn(e), FieldVal::Cn(e), FieldVal::Cn(e)] },
        RecordModel { typ: 1, sub: 30, fields: seq![FieldVal::U1(1), FieldVal::U1(1), FieldVal::U4(tested), FieldVal::U4(0),
            FieldVal::U4(aborted), FieldVal::U4(passed), FieldVal::U4(0)] },
        RecordModel { typ: 1, sub: 30, fields: seq![FieldVal::U1(1), FieldVal::U1(255), FieldVal::U4(tested), FieldVal::U4(0),
            FieldVal::U4(aborted), FieldVal::U4(passed), FieldVal::U4(0)] },
    ]
}

/// The HBR for a hard bin and its count: 'P' for a pass bin, 'F' otherwise
/// (also when the taxonomy does not define it), and the bin's name.
pub open spec fn hbr_model(e: (u16, u32), hard_bins: Map<u16, HardBin>) -> RecordModel {
    let known = hard_bins.contains_key(e.0);
    RecordModel { typ: 1, sub: 40, fields: seq![FieldVal::U1(1), FieldVal::U1(255), FieldVal::U2(e.0), FieldVal::U4(e.1),
        FieldVal::U1(if known && hard_bins[e.0].pass { 80u8 } else { 70u8 }),
        FieldVal::Cn(if known { hard_bins[e.0].name@ } else { none_text() })] }
}

/// The SBR for a soft bin and its count: 'P' when it rolls up into a pass
/// hard bin, 'F' otherwise, and the bin's name.
pub open spec fn sbr_model(e: (u16, u32), tax: BinTaxonomy) -> RecordModel {
    let known = tax.soft_bins@.contains_key(e.0);
    RecordModel { typ: 1, sub: 50, fields: seq![FieldVal::U1(1), FieldVal::U1(255), FieldVal::U2(e.0), FieldVal::U4(e.1),
        FieldVal::U1(if known && is_pass_bin(tax.hard_bins@, tax.soft_bins@[e.0].hard_bin) { 80u8 } else { 70u8 }),
        FieldVal::Cn(if known { tax.soft_bins@[e.0].name@ } else { none_text() })] }
}

/// GDR with the wafer map, then MRR.
pub open spec fn tail_models(meta: RunMetadata, gdr: Seq<u8>) -> Seq<RecordModel> {
    seq![
        RecordModel { typ: 20, sub: 10, fields: seq![FieldVal::Kn(gdr)] },
        RecordModel { typ: 1, sub: 20, fields: seq![FieldVal::U4(meta.finish_t), FieldVal::U1(32), FieldVal::U1(0),
            FieldVal::U1(0), FieldVal::Cn(none_text()), FieldVal::Cn(none_text())] },
    ]
}

/// The full record stream of a run, given the dies' coordinate order, the
/// tally's bins in key order, and the wafer's dies in coordinate order.
pub open spec fn run_models(program: TestProgram, wafer: WaferDieMap, results: Seq<DieTestResult>, tally: BinTally,
    tax: BinTaxonomy, meta: RunMetadata, order: Seq<int>, hs: Seq<(u16, u32)>, ss: Seq<(u16, u32)>,
    es: Seq<((i32, i32), DieState)>) -> Seq<RecordModel> {
    let tested = crate::wafer::die_count(wafer.dies@, |kv: ((i32, i32), DieState)| crate::wafer::is_tested(kv)) as u32;
    let passed = crate::wafer::die_count(wafer.dies@, |kv: ((i32, i32), DieState)| crate::wafer::is_passed(kv)) as u32;
    head_models(program, wafer, meta)
        + die_blocks(results, order, program.tests@)
        + test_synopses(program.tests@, results)
        + group_synopses(program.pattern_groups@, results)
        + counter_models(meta, wafer, tested, passed, tally.aborted)
        + hs.map_values(|e: (u16, u32)| hbr_model(e, tax.hard_bins@))
        + ss.map_values(|e: (u16, u32)| sbr_model(e, tax))
        + tail_models(meta, gdr_bytes(wafer.wafer_id@, es))
}

/// Pushing a record extends the views by its view.
proof fn lemma_views_push(rs: Seq<Record>, r: Record)
    ensures
        views(rs.push(r)) == views(rs).push(r@),
{
    assert(views(rs.push(r)) =~= views(rs).push(r@));
}

/// Append one die's records.
fn push_die_block(out: &mut Vec<Record>, result: &DieTestResult, program: &TestProgram)
    ensures
        views(final(out)@) == views(old(out)@) + die_block(*result, program.tests@),
{
    let ghost start = views(out@);
    proof {
        lemma_views_push(out@, Record::Bps(Bps));
    }
    out.push(Record::Bps(Bps));
    let ghost after_bps = views(out@);
    let mut i: usize = 0;
    while i < result.measurements.len()
        invariant
            i <= result.measurements@.len(),
            views(out@) == after_bps + result.measurements@.take(i as int).map_values(|m: MeasurementOutcome| ptr_model(m, program.tests@)),
        decreases result.measurements@.len() - i,
    {
        let measurement = &result.measurements[i];
        let spec = find_test_exec(&program.tests, measurement.test_number);
        let (lo, hi): (u32, u32) = match spec {
            Some(s) => (match s.lo_limit { Some(v) => v, None => 0 }, match s.hi_limit { Some(v) => v, None => 0 }),
            None => (0, 0),
        };
        let name: &str = match spec {
            Some(s) => s.name.as_str(),
            None => "",
        };
        let unit: &str = match spec {
            Some(s) => s.unit.as_str(),
            None => "",
        };
        proof {
            reveal_strlit("");
            assert(""@ =~= none_text());
        }
        let mut ptr = Ptr::measured(measurement.test_number, 1, 1, measurement.value, name, unit, lo, hi);
        if !measurement.passed {
            ptr.test_flg = ptr.test_flg | test_flg::TEST_FAILED;
            assert(0u8 | 1u8 == 1u8) by (bit_vector);
        }
        let rec = Record::Ptr(ptr);
        assert(ptr.fields() =~= ptr_model(*measurement, program.tests@).fields);
        assert(rec@ == ptr_model(*measurement, program.tests@));
        proof {
            lemma_views_push(out@, rec);
            let t = result.measurements@.take(i + 1);
            assert(t.map_values(|m: MeasurementOutcome| ptr_model(m, program.tests@)) =~= result.measurements@.take(i as int).map_values(
                |m: MeasurementOutcome| ptr_model(m, program.tests@)).push(ptr_model(*measurement, program.tests@)));
        }
        out.push(rec);
        i = i + 1;
    }
    assert(result.measurements@.take(i as int) =~= result.measurements@);
    let ghost after_ptrs = views(out@);
    let mut j: usize = 0;
    while j < result.patterns.len()
        invariant
            j <= result.patterns@.len(),
            views(out@) == after_ptrs + result.patterns@.take(j as int).map_values(|p: PatternOutcome| ftr_model(p)),
        decreases result.patterns@.len() - j,
    {
        let pattern = &result.patterns[j];
        let ftr = Ftr::pattern(pattern.test_number, 1, 1, pattern.passed, pattern.name.as_str());
        let rec = Record::Ftr(ftr);
        assert(crate::stdf::fields::strings_view(ftr.rtn_nam@) =~= Seq::<Seq<char>>::empty());
        assert(crate::stdf::fields::strings_view(ftr.pgm_nam@) =~= seq![pattern.name@]);
        assert((8u8 | 1u8) == 9u8) by (bit_vector);
        assert(ftr.fields() =~= ftr_model(*pattern).fields);
        proof {
            lemma_views_push(out@, rec);
            let t = result.patterns@.take(j + 1);
            assert(t.map_values(|p: PatternOutcome| ftr_model(p)) =~= result.patterns@.take(j as int).map_values(
                |p: PatternOutcome| ftr_model(p)).push(ftr_model(*pattern)));
        }
        out.push(rec);
        j = j + 1;
    }
    assert(result.patterns@.take(j as int) =~= result.patterns@);
    proof {
        lemma_views_push(out@, Record::Eps(Eps));
    }
    out.push(Record::Eps(Eps));
    assert(views(out@) =~= start + die_block(*result, program.tests@));
}

/// Build the full STDF record stream for a completed wafer-sort run.
///
/// `wafer` must already carry the tested results (see
/// [`crate::bin_sort::sort_wafer`]); `results` supplies the per-die
/// PTR/FTR payloads, written in coordinate order.
pub fn build_wafer_run_records(
    program: &TestProgram,
    wafer: &WaferDieMap,
    results: &[DieTestResult],
    tally: &BinTally,
    taxonomy: &BinTaxonomy,
    metadata: &RunMetadata,
) -> (records: Vec<Record>)
    requires
        results@.len() <= u32::MAX,
        wafer.dies@.len() <= u32::MAX,
    ensures
        exists|order: Seq<int>, hs: Seq<(u16, u32)>, ss: Seq<(u16, u32)>, es: Seq<((i32, i32), DieState)>|
            stable_order(order, results@) && sorted_bins(hs, tally.hard_bins@) && sorted_bins(ss, tally.soft_bins@)
            && sorted_dies(es, wafer.dies@) && views(records@) == run_models(*program, *wafer, results@, *tally,
            *taxonomy, *metadata, order, hs, ss, es),
{
    let start_t = metadata.start_t;
    let finish_t = metadata.finish_t;
    let mut records: Vec<Record> = Vec::new();
    records.push(Record::Far(Far { cpu_type: crate::stdf::codec::cpu_type::X86, stdf_ver: crate::stdf::codec::STDF_VERSION_V4 }));
    records.push(Record::Atr(Atr { mod_timn: start_t, cmd_line: concat2("tpt-ate-test wafer sort: ", program.design_name.as_str()) }));
    records.push(Record::Mir(Mir {
        setup_t: start_t,
        start_t,
        stat_bin: 0,
        mode_cod: 32,
        rtn_cod: 32,
        prot_cod: 32,
        burn_day: 0,
        cmt_cnt: 0,
        lot_id: program.lot_id.clone(),
        part_typ: program.part_type.clone(),
        node_nam: metadata.node_name.clone(),
        tstr_typ: metadata.tester_type.clone(),
        job_nam: program.design_name.clone(),
        job_rev: String::new(),
        sblot_id: wafer.wafer_id.clone(),
        oper_nam: metadata.operator.clone(),
        exec_typ: "tpt-ate-test".to_string(),
        exec_ver: "0.1.0".to_string(),
        test_cod: "W".to_string(),
        tst_temp: String::new(),
        user_txt: String::new(),
        aux_file: String::new(),
        pkg_typ: String::new(),
        family_id: String::new(),
        date_cod: String::new(),
        facil_id: String::new(),
        floor_id: String::new(),
        proc_id: String::new(),
        oper_frq: String::new(),
        spec_nam: String::new(),
        spec_ver: String::new(),
        flow_id: String::new(),
        setup_id: String::new(),
        dsgn_rev: String::new(),
        eng_id: String::new(),
        rom_cod: String::new(),
        serl_num: String::new(),
        supr_nam: String::new(),
    }));
    records.push(Record::Pmr(Pmr {
        pin_idx: 1,
        chan_typ: 0,
        chan_nam: "SIM-CHAN-1".to_string(),
        phy_nam: "PHYS-1".to_string(),
        log_nam: "LOG-1".to_string(),
        head_num: Some(1),
        site_num: Some(1),
    }));
    records.push(Record::Wir(Wir { head_num: 1, site_grp: 0, start_t, wafer_id: wafer.wafer_id.clone() }));
    records.push(Record::Wcr(Wcr {
        wafr_siz: WAFER_SIZE_150,
        die_ht: wafer.die_height_mils,
        die_wid: wafer.die_width_mils,
        wf_units: 3,
        wf_flat: 4,
        center_x: #[verifier::truncate] (wafer.center.x as i16),
        center_y: #[verifier::truncate] (wafer.center.y as i16),
        pos_x: 82,
        pos_y: 84,
    }));
    let ghost head = head_models(*program, *wafer, *metadata);
    proof {
        let r = records@;
        assert(r.len() == 6);
        assert(r[0]@ == head[0]);
        assert(r[1]@.fields =~= head[1].fields);
        assert(r[2]@.fields =~= head[2].fields);
        assert(r[3]@.fields =~= head[3].fields);
        assert(r[4]@.fields =~= head[4].fields);
        assert(r[5]@.fields =~= head[5].fields);
    }
    assert(views(records@) =~= head);

    // Per-die test data in coordinate order (deterministic file layout).
    let order = coordinate_order(results);
    let ghost ord = order@.map_values(|i: usize| i as int);
    let mut k: usize = 0;
    while k < order.len()
        invariant
            k <= order@.len(),
            ord == order@.map_values(|i: usize| i as int),
            stable_order(ord, results@),
            views(records@) == head + die_blocks(results@, ord.take(k as int), program.tests@),
        decreases order@.len() - k,
    {
        let idx = order[k];
        assert(ord[k as int] == idx as int);
        push_die_block(&mut records, &results[idx], program);
        assert(ord.take(k + 1).drop_last() =~= ord.take(k as int));
        assert(ord.take(k + 1).last() == idx as int);
        k = k + 1;
    }
    assert(ord.take(k as int) =~= ord);
    let ghost after_dies = views(records@);

    // Per-test synopses over all dies.
    let mut t: usize = 0;
    while t < program.tests.len()
        invariant
            t <= program.tests@.len(),
            results@.len() <= u32::MAX,
            views(records@) == after_dies + test_synopses(program.tests@.take(t as int), results@),
        decreases program.tests@.len() - t,
    {
        let spec = &program.tests[t];
        let (exec, fail) = summarize_measurement(results, spec.test_number);
        let rec = Record::Tsr(Tsr {
            head_num: 1,
            site_num: 255,
            test_typ: 80,
            test_num: spec.test_number,
            exec_cnt: exec,
            fail_cnt: fail,
            alarm_cnt: 0,
            test_nam: spec.name.clone(),
            seq_name: String::new(),
            test_lbl: String::new(),
        });
        proof {
            lemma_views_push(records@, rec);
            assert(test_synopses(program.tests@.take(t + 1), results@) =~= test_synopses(program.tests@.take(t as int), results@).push(rec@));
        }
        records.push(rec);
        t = t + 1;
    }
    assert(program.tests@.take(t as int) =~= program.tests@);
    let ghost after_tests = views(records@);
    let mut g: usize = 0;
    while g < program.pattern_groups.len()
        invariant
            g <= program.pattern_groups@.len(),
            results@.len() <= u32::MAX,
            views(records@) == after_tests + group_synopses(program.pattern_groups@.take(g as int), results@),
        decreases program.pattern_groups@.len() - g,
    {
        let group = &program.pattern_groups[g];
        let (exec, fail) = summarize_pattern(results, group.test_number);
        let rec = Record::Tsr(Tsr {
            head_num: 1,
            site_num: 255,
            test_typ: 70,
            test_num: group.test_number,
            exec_cnt: exec,
            fail_cnt: fail,
            alarm_cnt: 0,
            test_nam: group.name.clone(),
            seq_name: String::new(),
            test_lbl: String::new(),
        });
        proof {
            lemma_views_push(records@, rec);
            assert(group_synopses(program.pattern_groups@.take(g + 1), results@) =~= group_synopses(
                program.pattern_groups@.take(g as int), results@).push(rec@));
        }
        records.push(rec);
        g = g + 1;
    }
    assert(program.pattern_groups@.take(g as int) =~= program.pattern_groups@);

    let (tested, passed) = wafer.tested_counts();
    records.push(Record::Wrr(Wrr {
        head_num: 1,
        site_grp: 0,
        finish_t,
        part_cnt: tested,
        rtst_cnt: 0,
        abrt_cnt: tally.aborted,
        good_cnt: passed,
        func_cnt: 0,
        wafer_id: wafer.wafer_id.clone(),
        fabwf_id: String::new(),
        frame_id: String::new(),
        mask_id: String::new(),
        usr_desc: String::new(),
        exc_desc: String::new(),
    }));
    // Site 1 counters (the simulated tester is single-site) and the
    // site-255 totals.
    records.push(Record::Pcr(Pcr { head_num: 1, site_num: 1, part_cnt: tested, rtst_cnt: 0, abrt_cnt: tally.aborted, good_cnt: passed, func_cnt: 0 }));
    records.push(Record::Pcr(Pcr { head_num: 1, site_num: 255, part_cnt: tested, rtst_cnt: 0, abrt_cnt: tally.aborted, good_cnt: passed, func_cnt: 0 }));
    let ghost after_counters = views(records@);
    assert(after_counters =~= views(records@.subrange(0, records@.len() - 3)) + counter_models(*metadata, *wafer, tested, passed, tally.aborted));

    let hard_entries = tally.hard_bins.iter();
    proof {
        lemma_keys_ordered();
        lemma_bins_sorted(&tally.hard_bins);
    }
    let ghost hs = hard_entries.remaining().unref();
    assert(hs.take(0).map_values(|e: (u16, u32)| hbr_model(e, taxonomy.hard_bins@)) =~= Seq::<RecordModel>::empty());
    for kv in it: hard_entries
        invariant
            it.seq().unref() == hs,
            views(records@) == after_counters + hs.take(it.index()).map_values(|e: (u16, u32)| hbr_model(e, taxonomy.hard_bins@)),
    {
        let ghost i = it.index();
        let number = *kv.0;
        let count = *kv.1;
        let (pf, name): (u8, String) = match taxonomy.hard_bins.get(&number) {
            Some(b) => (if b.pass { 80 } else { 70 }, b.name.clone()),
            None => (70, String::new()),
        };
        let rec = Record::Hbr(Hbr { head_num: 1, site_num: 255, hbin_num: number, hbin_cnt: count, hbin_pf: pf, hbin_nam: name });
        proof {
            assert(hs[i] == (number, count));
            lemma_views_push(records@, rec);
            assert(hs.take(i + 1).map_values(|e: (u16, u32)| hbr_model(e, taxonomy.hard_bins@)) =~= hs.take(i).map_values(
                |e: (u16, u32)| hbr_model(e, taxonomy.hard_bins@)).push(rec@));
        }
        records.push(rec);
    }
    assert(hs.take(hs.len() as int) =~= hs);
    let ghost after_hbr = views(records@);

    let soft_entries = tally.soft_bins.iter();
    proof {
        lemma_bins_sorted(&tally.soft_bins);
    }
    let ghost ss = soft_entries.remaining().unref();
    assert(ss.take(0).map_values(|e: (u16, u32)| sbr_model(e, *taxonomy)) =~= Seq::<RecordModel>::empty());
    for kv in it: soft_entries
        invariant
            it.seq().unref() == ss,
            views(records@) == after_hbr + ss.take(it.index()).map_values(|e: (u16, u32)| sbr_model(e, *taxonomy)),
    {
        let ghost i = it.index();
        let number = *kv.0;
        let count = *kv.1;
        let (pf, name): (u8, String) = match taxonomy.soft_bins.get(&number) {
            Some(b) => (if taxonomy.is_pass_hard_bin(b.hard_bin) { 80 } else { 70 }, b.name.clone()),
            None => (70, String::new()),
        };
        let rec = Record::Sbr(Sbr { head_num: 1, site_num: 255, sbin_num: number, sbin_cnt: count, sbin_pf: pf, sbin_nam: name });
        proof {
            assert(ss[i] == (number, count));
            lemma_views_push(records@, rec);
            assert(ss.take(i + 1).map_values(|e: (u16, u32)| sbr_model(e, *taxonomy)) =~= ss.take(i).map_values(
                |e: (u16, u32)| sbr_model(e, *taxonomy)).push(rec@));
        }
        records.push(rec);
    }
    assert(ss.take(ss.len() as int) =~= ss);
    let ghost after_sbr = views(records@);

    // Generic data: the die-coordinate -> (hard bin, soft bin) map, so the
    // wafer map survives inside the STDF itself.
    let gen_data = encode_wafer_map_gdr(wafer);
    let ghost es = choose|es: Seq<((i32, i32), DieState)>| sorted_dies(es, wafer.dies@) && gen_data@ == gdr_bytes(wafer.wafer_id@, es);
    records.push(Record::Gdr(Gdr { gen_data }));
    records.push(Record::Mrr(Mrr { finish_t, disp_cod: 32, usr_cod: 0, exc_cod: 0, usr_desc: String::new(), exc_desc: String::new() }));
    assert(views(records@) =~= after_sbr + tail_models(*metadata, gdr_bytes(wafer.wafer_id@, es)));
    assert(views(records@) =~= run_models(*program, *wafer, results@, *tally, *taxonomy, *metadata, ord, hs, ss, es));
    records
}

} // verus!
