//! Placement verification: check executed placements against the
//! interposer/chiplet layout as the placement reference. Pure geometry over
//! reported positions: the same checks apply no matter which assembly
//! backend produced the records.

use crate::assembly::backend::{AssemblyTechnique, PlacementRecord};
use crate::assembly::layout::{find_die, find_site, manhattan, manhattan_fits, rect_fits, InterposerLayout, PointNm, SiteSpec};
use crate::text::same_text;
use vstd::prelude::*;

verus! {

/// One verification failure.
#[derive(Debug, Clone, PartialEq)]
pub enum PlacementViolation {
    /// A record names a site the layout does not define.
    UnknownSite { site_id: String },
    /// Two records claim the same site.
    DuplicatePlacement { site_id: String },
    /// A layout site received no placement.
    MissingPlacement { site_id: String },
    /// As-placed position deviates more than the tolerance from nominal
    /// (Manhattan distance, nm).
    OffTarget { site_id: String, deviation_nm: i64, tolerance_nm: i64 },
    /// The placed footprint is not fully inside the interposer extent.
    OutOfBounds { site_id: String, placed: PointNm },
    /// Two placed footprints overlap.
    Overlap { first: String, second: String },
    /// Placed orientation differs from the reference.
    OrientationMismatch { site_id: String },
}

/// The value of a violation (site ids as text).
pub enum ViolationVal {
    UnknownSite(Seq<char>),
    DuplicatePlacement(Seq<char>),
    MissingPlacement(Seq<char>),
    OffTarget(Seq<char>, i64, i64),
    OutOfBounds(Seq<char>, PointNm),
    Overlap(Seq<char>, Seq<char>),
    OrientationMismatch(Seq<char>),
}

impl View for PlacementViolation {
    type V = ViolationVal;

    open spec fn view(&self) -> ViolationVal {
        match self {
            PlacementViolation::UnknownSite { site_id } => ViolationVal::UnknownSite(site_id@),
            PlacementViolation::DuplicatePlacement { site_id } => ViolationVal::DuplicatePlacement(site_id@),
            PlacementViolation::MissingPlacement { site_id } => ViolationVal::MissingPlacement(site_id@),
            PlacementViolation::OffTarget { site_id, deviation_nm, tolerance_nm } =>
                ViolationVal::OffTarget(site_id@, *deviation_nm, *tolerance_nm),
            PlacementViolation::OutOfBounds { site_id, placed } => ViolationVal::OutOfBounds(site_id@, *placed),
            PlacementViolation::Overlap { first, second } => ViolationVal::Overlap(first@, second@),
            PlacementViolation::OrientationMismatch { site_id } => ViolationVal::OrientationMismatch(site_id@),
        }
    }
}

/// Verification outcome for a set of placement records.
#[derive(Debug, Clone, PartialEq)]
pub struct PlacementReport {
    pub violations: Vec<PlacementViolation>,
    /// Number of records verified.
    pub placed_count: usize,
}

impl PlacementReport {
    /// True when no violations were found.
    pub fn is_ok(&self) -> (b: bool)
        ensures
            b == (self.violations@.len() == 0),
    {
        self.violations.len() == 0
    }
}

/// The values of a run of violations.
pub open spec fn violation_views(v: Seq<PlacementViolation>) -> Seq<ViolationVal> {
    v.map_values(|x: PlacementViolation| x@)
}

/// The placed footprint lies outside the interposer extent (or below zero).
pub open spec fn out_of_bounds(p: PointNm, w: i64, h: i64, extent: (i64, i64)) -> bool {
    p.x < 0 || p.y < 0 || p.x + w > extent.0 || p.y + h > extent.1
}

/// The checks on a record whose site is known and placed for the first
/// time: orientation, distance from nominal, bounds.
pub open spec fn record_checks(r: PlacementRecord, site: SiteSpec, layout: InterposerLayout, tol: i64) -> Seq<ViolationVal> {
    let id = r.site_id@;
    let dev = manhattan(r.placed, r.nominal);
    (if r.orientation != site.orientation { seq![ViolationVal::OrientationMismatch(id)] } else { Seq::empty() })
        + (if dev > tol { seq![ViolationVal::OffTarget(id, dev as i64, tol)] } else { Seq::empty() })
        + match find_die(layout.dies@, r.chiplet_id@) {
            Some(d) => if out_of_bounds(r.placed, d.width_nm, d.height_nm, layout.extent_nm) {
                seq![ViolationVal::OutOfBounds(id, r.placed)]
            } else {
                Seq::empty()
            },
            None => Seq::empty(),
        }
}

/// The per-record pass: the violations found so far and the site ids
/// placed so far.
pub open spec fn record_pass(rs: Seq<PlacementRecord>, layout: InterposerLayout, tol: i64) -> (Seq<ViolationVal>, Set<Seq<char>>)
    decreases rs.len(),
{
    if rs.len() == 0 {
        (Seq::empty(), Set::empty())
    } else {
        let (v, seen) = record_pass(rs.drop_last(), layout, tol);
        let r = rs.last();
        let id = r.site_id@;
        match find_site(layout.sites@, id) {
            None => (v.push(ViolationVal::UnknownSite(id)), seen),
            Some(site) => if seen.contains(id) {
                (v.push(ViolationVal::DuplicatePlacement(id)), seen)
            } else {
                (v + record_checks(r, site, layout, tol), seen.insert(id))
            },
        }
    }
}

/// Every layout site that was never placed, in layout order.
pub open spec fn missing_pass(sites: Seq<SiteSpec>, seen: Set<Seq<char>>) -> Seq<ViolationVal>
    decreases sites.len(),
{
    if sites.len() == 0 {
        Seq::empty()
    } else {
        missing_pass(sites.drop_last(), seen) + if !seen.contains(sites.last().site_id@) {
            seq![ViolationVal::MissingPlacement(sites.last().site_id@)]
        } else {
            Seq::empty()
        }
    }
}

/// The rect a placement occupies (bottom-left inclusive, top exclusive), if
/// its chiplet has a footprint.
pub open spec fn placed_rect(r: PlacementRecord, layout: InterposerLayout) -> Option<(PointNm, PointNm)> {
    match find_die(layout.dies@, r.chiplet_id@) {
        Some(d) => Some((r.placed, PointNm { x: (r.placed.x + d.width_nm) as i64, y: (r.placed.y + d.height_nm) as i64 })),
        None => None,
    }
}

/// Two rects intersect.
pub open spec fn rects_overlap(a: (PointNm, PointNm), b: (PointNm, PointNm)) -> bool {
    a.0.x < b.1.x && b.0.x < a.1.x && a.0.y < b.1.y && b.0.y < a.1.y
}

/// The overlap found between records `i` and `j`, if any.
pub open spec fn pair_overlap(rs: Seq<PlacementRecord>, layout: InterposerLayout, i: int, j: int) -> Seq<ViolationVal> {
    match (placed_rect(rs[i], layout), placed_rect(rs[j], layout)) {
        (Some(a), Some(b)) => if rects_overlap(a, b) {
            seq![ViolationVal::Overlap(rs[i].site_id@, rs[j].site_id@)]
        } else {
            Seq::empty()
        },
        _ => Seq::empty(),
    }
}

/// Overlaps of record `i` with records `i+1 .. end`, in order.
pub open spec fn overlap_row(rs: Seq<PlacementRecord>, layout: InterposerLayout, i: int, end: int) -> Seq<ViolationVal>
    decreases end - i,
{
    if end <= i + 1 {
        Seq::empty()
    } else {
        overlap_row(rs, layout, i, end - 1) + pair_overlap(rs, layout, i, end - 1)
    }
}

/// Overlaps of records `0 .. end` with the records after each, in order.
pub open spec fn overlap_pass(rs: Seq<PlacementRecord>, layout: InterposerLayout, end: int) -> Seq<ViolationVal>
    decreases end,
{
    if end <= 0 {
        Seq::empty()
    } else {
        overlap_pass(rs, layout, end - 1) + overlap_row(rs, layout, end - 1, rs.len() as int)
    }
}

/// All violations, in the order they are reported: per record (unknown
/// site, duplicate, or orientation / off-target / out-of-bounds), then
/// missing sites, then overlapping pairs.
pub open spec fn verify_spec(rs: Seq<PlacementRecord>, layout: InterposerLayout, tol: i64) -> Seq<ViolationVal> {
    let (v, seen) = record_pass(rs, layout, tol);
    v + missing_pass(layout.sites@, seen) + overlap_pass(rs, layout, rs.len() as int)
}

/// Record `i` is checked in full: its site is known and no earlier record
/// names the same site.
pub open spec fn first_placement(rs: Seq<PlacementRecord>, layout: InterposerLayout, i: int) -> bool {
    &&& find_site(layout.sites@, rs[i].site_id@) is Some
    &&& forall|j: int| 0 <= j < i ==> rs[j].site_id@ != rs[i].site_id@
}

/// Every computation on the records fits `i64` (the checks overflow and
/// panic otherwise): footprint corners of records with a known chiplet,
/// and the distance from nominal of each first placement.
pub open spec fn arithmetic_fits(rs: Seq<PlacementRecord>, layout: InterposerLayout) -> bool {
    &&& forall|i: int| 0 <= i < rs.len() && #[trigger] first_placement(rs, layout, i) ==> manhattan_fits(rs[i].placed, rs[i].nominal)
    &&& forall|i: int| 0 <= i < rs.len() ==> (#[trigger] find_die(layout.dies@, rs[i].chiplet_id@) matches Some(d)
        ==> rect_fits(rs[i].placed, d.width_nm, d.height_nm))
}

/// The placed site ids of a prefix are those of its records with a known
/// site.
proof fn lemma_seen(rs: Seq<PlacementRecord>, layout: InterposerLayout, tol: i64, id: Seq<char>)
    ensures
        record_pass(rs, layout, tol).1.contains(id) <==> exists|j: int| 0 <= j < rs.len() && #[trigger] rs[j].site_id@ == id
            && find_site(layout.sites@, id) is Some,
    decreases rs.len(),
{
    if rs.len() > 0 {
        let init = rs.drop_last();
        lemma_seen(init, layout, tol, id);
        if exists|j: int| 0 <= j < init.len() && #[trigger] init[j].site_id@ == id && find_site(layout.sites@, id) is Some {
            let j = choose|j: int| 0 <= j < init.len() && #[trigger] init[j].site_id@ == id && find_site(layout.sites@, id) is Some;
            assert(rs[j] == init[j]);
        }
        if exists|j: int| 0 <= j < rs.len() && #[trigger] rs[j].site_id@ == id && find_site(layout.sites@, id) is Some {
            let j = choose|j: int| 0 <= j < rs.len() && #[trigger] rs[j].site_id@ == id && find_site(layout.sites@, id) is Some;
            if j < rs.len() - 1 {
                assert(init[j] == rs[j]);
            }
        }
    }
}

/// Whether some string of `v` is the text `s`.
fn contains_text(v: &Vec<String>, s: &str) -> (r: bool)
    ensures
        r == exists|k: int| 0 <= k < v@.len() && #[trigger] v@[k]@ == s@,
{
    let mut k: usize = 0;
    while k < v.len()
        invariant
            k <= v@.len(),
            forall|j: int| 0 <= j < k ==> #[trigger] v@[j]@ != s@,
        decreases v@.len() - k,
    {
        if same_text(v[k].as_str(), s) {
            return true;
        }
        k = k + 1;
    }
    false
}

/// The rect a placement occupies, if its chiplet has a footprint.
fn placed_rect_exec(record: &PlacementRecord, layout: &InterposerLayout) -> (r: Option<(PointNm, PointNm)>)
    requires
        find_die(layout.dies@, record.chiplet_id@) matches Some(d) ==> rect_fits(record.placed, d.width_nm, d.height_nm),
    ensures
        r == placed_rect(*record, layout.clone_spec()),
{
    match layout.die_spec(record.chiplet_id.as_str()) {
        Some(spec) => Some((record.placed, PointNm::new(record.placed.x + spec.width_nm, record.placed.y + spec.height_nm))),
        None => None,
    }
}

impl InterposerLayout {
    /// The layout itself (a name for it in specifications of helpers).
    pub open spec fn clone_spec(&self) -> InterposerLayout {
        *self
    }
}

/// Verify placement records against the reference layout.
///
/// `tolerance_nm` is the allowed Manhattan deviation of the as-placed
/// bottom-left corner from the nominal site position (equipment process
/// capability, not a layout property).
pub fn verify_placements(records: &[PlacementRecord], layout: &InterposerLayout, tolerance_nm: i64) -> (report: PlacementReport)
    requires
        arithmetic_fits(records@, *layout),
    ensures
        violation_views(report.violations@) == verify_spec(records@, *layout, tolerance_nm),
        report.placed_count == records@.len(),
{
    let ghost rs = records@;
    let mut violations: Vec<PlacementViolation> = Vec::new();
    // The sites seen so far. vstd states what a `BTreeSet` holds only for
    // keys whose ordering it knows to obey the `Ord` laws, and `String` is
    // not among them, so the set is a list scanned by text.
    let mut seen: Vec<String> = Vec::new();
    let mut i: usize = 0;
    assert(rs.take(0) =~= Seq::<PlacementRecord>::empty());
    assert(violation_views(violations@) =~= Seq::<ViolationVal>::empty());
    while i < records.len()
        invariant
            rs == records@,
            i <= rs.len(),
            arithmetic_fits(rs, *layout),
            violation_views(violations@) == record_pass(rs.take(i as int), *layout, tolerance_nm).0,
            forall|x: Seq<char>| record_pass(rs.take(i as int), *layout, tolerance_nm).1.contains(x)
                <==> exists|k: int| 0 <= k < seen@.len() && #[trigger] seen@[k]@ == x,
        decreases rs.len() - i,
    {
        let record = &records[i];
        let ghost pre = rs.take(i as int);
        let ghost post = rs.take(i + 1);
        assert(post.drop_last() =~= pre);
        assert(post.last() == *record);
        let ghost before = violation_views(violations@);
        let ghost seen_set = record_pass(pre, *layout, tolerance_nm).1;
        match layout.site(record.site_id.as_str()) {
            None => {
                violations.push(PlacementViolation::UnknownSite { site_id: record.site_id.clone() });
                assert(violation_views(violations@) =~= before.push(ViolationVal::UnknownSite(record.site_id@)));
            },
            Some(site) => {
                if contains_text(&seen, record.site_id.as_str()) {
                    violations.push(PlacementViolation::DuplicatePlacement { site_id: record.site_id.clone() });
                    assert(violation_views(violations@) =~= before.push(ViolationVal::DuplicatePlacement(record.site_id@)));
                } else {
                    proof {
                        lemma_seen(pre, *layout, tolerance_nm, record.site_id@);
                        assert forall|j: int| 0 <= j < i implies rs[j].site_id@ != rs[i as int].site_id@ by {
                            if rs[j].site_id@ == rs[i as int].site_id@ {
                                assert(pre[j] == rs[j]);
                            }
                        }
                        assert(first_placement(rs, *layout, i as int));
                    }
                    let ghost found = Seq::<ViolationVal>::empty();
                    if record.orientation != site.orientation {
                        violations.push(PlacementViolation::OrientationMismatch { site_id: record.site_id.clone() });
                    }
                    let ghost after_orientation = violation_views(violations@);
                    assert(after_orientation =~= before + (if record.orientation != site.orientation {
                        seq![ViolationVal::OrientationMismatch(record.site_id@)] } else { Seq::empty() }));
                    let deviation = record.placed.manhattan_distance(&record.nominal);
                    if deviation > tolerance_nm {
                        violations.push(PlacementViolation::OffTarget {
                            site_id: record.site_id.clone(),
                            deviation_nm: deviation,
                            tolerance_nm,
                        });
                    }
                    let ghost after_target = violation_views(violations@);
                    assert(after_target =~= after_orientation + (if deviation > tolerance_nm {
                        seq![ViolationVal::OffTarget(record.site_id@, deviation, tolerance_nm)] } else { Seq::empty() }));
                    // Bounds: the placed footprint must sit inside the interposer.
                    match layout.die_spec(record.chiplet_id.as_str()) {
                        Some(spec) => {
                            assert(rect_fits(record.placed, spec.width_nm, spec.height_nm));
                            let hi = PointNm::new(record.placed.x + spec.width_nm, record.placed.y + spec.height_nm);
                            if record.placed.x < 0 || record.placed.y < 0 || hi.x > layout.extent_nm.0 || hi.y > layout.extent_nm.1 {
                                violations.push(PlacementViolation::OutOfBounds { site_id: record.site_id.clone(), placed: record.placed });
                            }
                        },
                        None => {},
                    }
                    assert(violation_views(violations@) =~= before + record_checks(*record, *site, *layout, tolerance_nm));
                    let ghost seen_before = seen@;
                    seen.push(record.site_id.clone());
                    proof {
                        assert forall|x: Seq<char>| seen_set.insert(record.site_id@).contains(x)
                            <==> exists|k: int| 0 <= k < seen@.len() && #[trigger] seen@[k]@ == x by {
                            if x == record.site_id@ {
                                assert(seen@[seen@.len() - 1]@ == x);
                            } else if seen_set.contains(x) {
                                let k = choose|k: int| 0 <= k < seen_before.len() && #[trigger] seen_before[k]@ == x;
                                assert(seen@[k] == seen_before[k]);
                            }
                            if exists|k: int| 0 <= k < seen@.len() && #[trigger] seen@[k]@ == x {
                                let k = choose|k: int| 0 <= k < seen@.len() && #[trigger] seen@[k]@ == x;
                                if k < seen@.len() - 1 {
                                    assert(seen@[k] == seen_before[k]);
                                }
                            }
                        }
                    }
                }
            },
        }
        i = i + 1;
    }
    assert(rs.take(i as int) =~= rs);
    let ghost seen_final = record_pass(rs, *layout, tolerance_nm).1;
    let ghost after_records = violation_views(violations@);

    // Every layout site must have been placed exactly once.
    let mut s: usize = 0;
    assert(layout.sites@.take(0) =~= Seq::<SiteSpec>::empty());
    assert(after_records + missing_pass(layout.sites@.take(0), seen_final) =~= after_records);
    while s < layout.sites.len()
        invariant
            s <= layout.sites@.len(),
            violation_views(violations@) == after_records + missing_pass(layout.sites@.take(s as int), seen_final),
            forall|x: Seq<char>| seen_final.contains(x) <==> exists|k: int| 0 <= k < seen@.len() && #[trigger] seen@[k]@ == x,
        decreases layout.sites@.len() - s,
    {
        let site = &layout.sites[s];
        let ghost before = violation_views(violations@);
        let ghost post = layout.sites@.take(s + 1);
        assert(post.drop_last() =~= layout.sites@.take(s as int));
        assert(post.last() == *site);
        let placed = contains_text(&seen, site.site_id.as_str());
        assert(placed == seen_final.contains(site.site_id@));
        if !placed {
            violations.push(PlacementViolation::MissingPlacement { site_id: site.site_id.clone() });
        }
        assert(missing_pass(post, seen_final) == missing_pass(layout.sites@.take(s as int), seen_final) + if !seen_final.contains(
            site.site_id@) { seq![ViolationVal::MissingPlacement(site.site_id@)] } else { Seq::<ViolationVal>::empty() });
        assert(violation_views(violations@) =~= before + if !placed { seq![ViolationVal::MissingPlacement(site.site_id@)] } else {
            Seq::<ViolationVal>::empty() });
        assert(violation_views(violations@) =~= after_records + missing_pass(post, seen_final));
        s = s + 1;
    }
    assert(layout.sites@.take(s as int) =~= layout.sites@);
    let ghost after_missing = violation_views(violations@);

    // Overlap between placed footprints (pairwise; plans are small).
    let n = records.len();
    let mut a: usize = 0;
    assert(after_missing + overlap_pass(rs, *layout, 0) =~= after_missing);
    while a < n
        invariant
            rs == records@,
            n == rs.len(),
            a <= n,
            arithmetic_fits(rs, *layout),
            violation_views(violations@) == after_missing + overlap_pass(rs, *layout, a as int),
        decreases n - a,
    {
        let ghost row_start = violation_views(violations@);
        match placed_rect_exec(&records[a], layout) {
            None => {
                proof {
                    lemma_row_without_rect(rs, *layout, a as int, n as int);
                }
                assert(violation_views(violations@) =~= row_start + overlap_row(rs, *layout, a as int, n as int));
            },
            Some((a_lo, a_hi)) => {
                let mut b: usize = a + 1;
                assert(row_start + overlap_row(rs, *layout, a as int, (a + 1) as int) =~= row_start);
                while b < n
                    invariant
                        rs == records@,
                        n == rs.len(),
                        a < b <= n,
                        arithmetic_fits(rs, *layout),
                        placed_rect(rs[a as int], *layout) == Some((a_lo, a_hi)),
                        violation_views(violations@) == row_start + overlap_row(rs, *layout, a as int, b as int),
                    decreases n - b,
                {
                    let ghost before = violation_views(violations@);
                    match placed_rect_exec(&records[b], layout) {
                        Some((b_lo, b_hi)) => {
                            let overlaps = a_lo.x < b_hi.x && b_lo.x < a_hi.x && a_lo.y < b_hi.y && b_lo.y < a_hi.y;
                            if overlaps {
                                violations.push(PlacementViolation::Overlap {
                                    first: records[a].site_id.clone(),
                                    second: records[b].site_id.clone(),
                                });
                            }
                        },
                        None => {},
                    }
                    assert(violation_views(violations@) =~= before + pair_overlap(rs, *layout, a as int, b as int));
                    b = b + 1;
                }
            },
        }
        a = a + 1;
    }
    PlacementReport { violations, placed_count: records.len() }
}

/// A record without a footprint overlaps nothing.
proof fn lemma_row_without_rect(rs: Seq<PlacementRecord>, layout: InterposerLayout, i: int, end: int)
    requires
        placed_rect(rs[i], layout) is None,
    ensures
        overlap_row(rs, layout, i, end) == Seq::<ViolationVal>::empty(),
    decreases end - i,
{
    if end > i + 1 {
        lemma_row_without_rect(rs, layout, i, end - 1);
        assert(overlap_row(rs, layout, i, end) =~= Seq::<ViolationVal>::empty());
    }
}

/// The records with every technique tag replaced by `t`.
pub open spec fn retagged(rs: Seq<PlacementRecord>, t: AssemblyTechnique) -> Seq<PlacementRecord> {
    rs.map_values(|r: PlacementRecord| PlacementRecord { technique: t, ..r })
}

proof fn lemma_record_pass_ignores_technique(rs: Seq<PlacementRecord>, t: AssemblyTechnique, layout: InterposerLayout, tol: i64)
    ensures
        record_pass(retagged(rs, t), layout, tol) == record_pass(rs, layout, tol),
    decreases rs.len(),
{
    if rs.len() > 0 {
        assert(retagged(rs, t).drop_last() =~= retagged(rs.drop_last(), t));
        lemma_record_pass_ignores_technique(rs.drop_last(), t, layout, tol);
        let r = rs.last();
        let r2 = retagged(rs, t).last();
        assert(r2 == PlacementRecord { technique: t, ..r });
        let site = find_site(layout.sites@, r.site_id@);
        if site is Some {
            assert(record_checks(r2, site->Some_0, layout, tol) =~= record_checks(r, site->Some_0, layout, tol));
        }
    }
}

proof fn lemma_overlap_row_ignores_technique(rs: Seq<PlacementRecord>, t: AssemblyTechnique, layout: InterposerLayout, i: int, end: int)
    requires
        0 <= i,
        end <= rs.len(),
    ensures
        overlap_row(retagged(rs, t), layout, i, end) == overlap_row(rs, layout, i, end),
    decreases end - i,
{
    if end > i + 1 {
        lemma_overlap_row_ignores_technique(rs, t, layout, i, end - 1);
        assert(pair_overlap(retagged(rs, t), layout, i, end - 1) =~= pair_overlap(rs, layout, i, end - 1));
    }
}

proof fn lemma_overlap_pass_ignores_technique(rs: Seq<PlacementRecord>, t: AssemblyTechnique, layout: InterposerLayout, end: int)
    requires
        end <= rs.len(),
    ensures
        overlap_pass(retagged(rs, t), layout, end) == overlap_pass(rs, layout, end),
    decreases end,
{
    if end > 0 {
        lemma_overlap_pass_ignores_technique(rs, t, layout, end - 1);
        lemma_overlap_row_ignores_technique(rs, t, layout, end - 1, rs.len() as int);
    }
}

/// Verification is technique-agnostic: the violations found for a set of
/// records do not depend on which assembly technique produced them.
pub proof fn lemma_verification_ignores_technique(rs: Seq<PlacementRecord>, t: AssemblyTechnique, layout: InterposerLayout, tol: i64)
    ensures
        verify_spec(retagged(rs, t), layout, tol) == verify_spec(rs, layout, tol),
        arithmetic_fits(retagged(rs, t), layout) == arithmetic_fits(rs, layout),
{
    lemma_record_pass_ignores_technique(rs, t, layout, tol);
    lemma_overlap_pass_ignores_technique(rs, t, layout, rs.len() as int);
    let rs2 = retagged(rs, t);
    assert forall|i: int| 0 <= i < rs.len() implies #[trigger] first_placement(rs2, layout, i) == first_placement(rs, layout, i) by {
        assert forall|j: int| 0 <= j < i implies (rs2[j].site_id@ != rs2[i].site_id@) == (rs[j].site_id@ != rs[i].site_id@) by {
            assert(rs2[j].site_id == rs[j].site_id);
        }
    }
    assert forall|i: int| 0 <= i < rs.len() implies #[trigger] rs2[i].placed == rs[i].placed && rs2[i].nominal == rs[i].nominal
        && rs2[i].chiplet_id == rs[i].chiplet_id by {}
    if arithmetic_fits(rs, layout) {
        assert forall|i: int| 0 <= i < rs2.len() && #[trigger] first_placement(rs2, layout, i) implies manhattan_fits(rs2[i].placed, rs2[i].nominal) by {
            assert(first_placement(rs, layout, i));
        }
        assert forall|i: int| 0 <= i < rs2.len() implies (#[trigger] find_die(layout.dies@, rs2[i].chiplet_id@) matches Some(d)
            ==> rect_fits(rs2[i].placed, d.width_nm, d.height_nm)) by {
            assert(find_die(layout.dies@, rs[i].chiplet_id@) == find_die(layout.dies@, rs2[i].chiplet_id@));
        }
    }
    if arithmetic_fits(rs2, layout) {
        assert forall|i: int| 0 <= i < rs.len() && #[trigger] first_placement(rs, layout, i) implies manhattan_fits(rs[i].placed, rs[i].nominal) by {
            assert(first_placement(rs2, layout, i));
        }
        assert forall|i: int| 0 <= i < rs.len() implies (#[trigger] find_die(layout.dies@, rs[i].chiplet_id@) matches Some(d)
            ==> rect_fits(rs[i].placed, d.width_nm, d.height_nm)) by {
            assert(find_die(layout.dies@, rs[i].chiplet_id@) == find_die(layout.dies@, rs2[i].chiplet_id@));
        }
    }
}

} // verus!
