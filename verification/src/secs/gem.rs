//! GEM (SEMI E30) semantics on top of SECS-II: the well-known stream/function
//! transactions the ATE flow uses, plus the communication/control state models.
//!
//! Stream/function numbering follows the published SEMI standard headers
//! (E5 Section 6 / E30 Annex): S1 status and communications, S2 equipment
//! control, S5 alarms, S6 data collection, S9 error responses.

pub mod ceid;
pub mod vid;

use crate::secs::error::SecsError;
use crate::secs::hsms::HsmsSession;
use crate::secs::item::{duplicate_all, lemma_models_index, models, ItemVal, SecsItem};
use crate::text::{concat3, decimal, decimal_text};
use vstd::prelude::*;

verus! {

/// Report ID (RPTID) used for the DIE_TESTED event report.
pub const DIE_TESTED_RPTID: u32 = 1;

/// One parsed report entry from an S6F11: `(RPTID, V-items)`.
pub type ReportEntry = (u32, Vec<SecsItem>);

/// The value of a report entry list.
pub open spec fn entries_view(rs: Seq<(u32, Vec<SecsItem>)>) -> Seq<(u32, Seq<ItemVal>)> {
    Seq::new(rs.len(), |i: int| (rs[i].0, models(rs[i].1@)))
}

/// The item of one report: `L,2 [RPTID U4, V-list]`.
pub open spec fn report_val(r: (u32, Seq<ItemVal>)) -> ItemVal {
    ItemVal::List(seq![ItemVal::U4(seq![r.0]), ItemVal::List(r.1)])
}

/// The items of a run of reports.
pub open spec fn reports_val(rs: Seq<(u32, Seq<ItemVal>)>) -> Seq<ItemVal> {
    Seq::new(rs.len(), |i: int| report_val(rs[i]))
}

/// An S6F11 body: `L,3 [DATAID U4, CEID U4, L,n [report...]]`.
pub open spec fn s6f11_val(dataid: u32, ceid: u32, rs: Seq<(u32, Seq<ItemVal>)>) -> ItemVal {
    ItemVal::List(seq![ItemVal::U4(seq![dataid]), ItemVal::U4(seq![ceid]), ItemVal::List(reports_val(rs))])
}

/// The first element of a `U4` item.
pub open spec fn first_u4(v: ItemVal) -> Option<u32> {
    match v {
        ItemVal::U4(x) => if x.len() > 0 { Some(x[0]) } else { None },
        _ => None,
    }
}

/// One S6F11 report entry, or the text of what is wrong with it.
pub open spec fn parse_report(v: ItemVal) -> Result<(u32, Seq<ItemVal>), Seq<char>> {
    match v {
        ItemVal::List(p) => if p.len() != 2 {
            Err("S6F11 report entry has "@ + decimal(p.len()) + " items, expected 2"@)
        } else {
            match first_u4(p[0]) {
                None => Err("S6F11 RPTID is not U4"@),
                Some(r) => match p[1] {
                    ItemVal::List(vars) => Ok((r, vars)),
                    _ => Err("S6F11 V-list is not a list"@),
                },
            }
        },
        _ => Err("S6F11 report entry is not a list"@),
    }
}

/// A run of report entries, or the text of the first problem.
pub open spec fn parse_reports(rs: Seq<ItemVal>) -> Result<Seq<(u32, Seq<ItemVal>)>, Seq<char>>
    decreases rs.len(),
{
    if rs.len() == 0 {
        Ok(Seq::empty())
    } else {
        match parse_reports(rs.drop_last()) {
            Err(t) => Err(t),
            Ok(es) => match parse_report(rs.last()) {
                Ok(e) => Ok(es.push(e)),
                Err(t) => Err(t),
            },
        }
    }
}

/// An S6F11 body as `(dataid, ceid, reports)`, or the text of the first
/// problem found.
pub open spec fn parse_s6f11_val(v: ItemVal) -> Result<(u32, u32, Seq<(u32, Seq<ItemVal>)>), Seq<char>> {
    match v {
        ItemVal::List(items) => if items.len() != 3 {
            Err("S6F11 body has "@ + decimal(items.len()) + " items, expected 3"@)
        } else {
            match first_u4(items[0]) {
                None => Err("S6F11 DATAID is not U4"@),
                Some(d) => match first_u4(items[1]) {
                    None => Err("S6F11 CEID is not U4"@),
                    Some(c) => match items[2] {
                        ItemVal::List(reps) => match parse_reports(reps) {
                            Ok(rs) => Ok((d, c, rs)),
                            Err(t) => Err(t),
                        },
                        _ => Err("S6F11 report list is not a list"@),
                    },
                },
            }
        },
        _ => Err("S6F11 body is not a list"@),
    }
}

/// Build S1F1 "Are You There" (host asks equipment to identify itself).
pub fn s1f1_are_you_there() -> (item: SecsItem)
    ensures
        item@ == ItemVal::List(Seq::empty()),
{
    let v: Vec<SecsItem> = Vec::new();
    assert(models(v@) =~= Seq::<ItemVal>::empty());
    SecsItem::List(v)
}

/// Build S1F2 "On Line Data": equipment identifies itself with MDLN/SOFTREV.
pub fn s1f2_online_data(model: &str, soft_rev: &str) -> (item: SecsItem)
    ensures
        item@ == ItemVal::List(seq![ItemVal::Ascii(model@), ItemVal::Ascii(soft_rev@)]),
{
    let v = vec![SecsItem::a(model), SecsItem::a(soft_rev)];
    proof {
        lemma_models_index(v@);
    }
    assert(models(v@) =~= seq![ItemVal::Ascii(model@), ItemVal::Ascii(soft_rev@)]);
    SecsItem::List(v)
}

/// Build S1F13 "Establish Communications Request" (empty list body).
pub fn s1f13_establish_communications_request() -> (item: SecsItem)
    ensures
        item@ == ItemVal::List(Seq::empty()),
{
    s1f1_are_you_there()
}

/// The COMMACK text of an S1F14.
pub open spec fn commack_text(accepted: bool) -> Seq<char> {
    if accepted { "Established"@ } else { "Refused"@ }
}

/// Build S1F14 "Establish Communications Request Acknowledge".
pub fn s1f14_establish_communications_ack(accepted: bool) -> (item: SecsItem)
    ensures
        item@ == ItemVal::List(seq![ItemVal::Boolean(seq![accepted]), ItemVal::Ascii(commack_text(accepted))]),
{
    let flag = vec![accepted];
    assert(flag@ =~= seq![accepted]);
    let v = vec![SecsItem::Boolean(flag), SecsItem::a(if accepted { "Established" } else { "Refused" })];
    proof {
        lemma_models_index(v@);
    }
    assert(models(v@) =~= seq![ItemVal::Boolean(seq![accepted]), ItemVal::Ascii(commack_text(accepted))]);
    SecsItem::List(v)
}

/// Build S6F11 "Event Report Send": `L,3 [DATAID U4, CEID U4, L,n [L,2 [RPTID
/// U4, V-list]]]`.
pub fn s6f11_event_report(dataid: u32, ceid: u32, reports: &[(u32, Vec<SecsItem>)]) -> (item: SecsItem)
    ensures
        item@ == s6f11_val(dataid, ceid, entries_view(reports@)),
{
    let ghost ev = entries_view(reports@);
    let mut report_items: Vec<SecsItem> = Vec::new();
    let mut i: usize = 0;
    while i < reports.len()
        invariant
            i <= reports@.len(),
            ev == entries_view(reports@),
            report_items@.len() == i,
            forall|j: int| 0 <= j < i ==> (#[trigger] report_items@[j])@ == report_val(ev[j]),
        decreases reports@.len() - i,
    {
        let (rptid, variables) = &reports[i];
        let vars = duplicate_all(variables.as_slice());
        let pair = vec![SecsItem::u4(*rptid), SecsItem::List(vars)];
        proof {
            lemma_models_index(pair@);
        }
        assert(models(pair@) =~= seq![ItemVal::U4(seq![ev[i as int].0]), ItemVal::List(ev[i as int].1)]);
        report_items.push(SecsItem::List(pair));
        i = i + 1;
    }
    proof {
        lemma_models_index(report_items@);
    }
    assert(models(report_items@) =~= reports_val(ev));
    let top = vec![SecsItem::u4(dataid), SecsItem::u4(ceid), SecsItem::List(report_items)];
    proof {
        lemma_models_index(top@);
    }
    assert(models(top@) =~= seq![ItemVal::U4(seq![dataid]), ItemVal::U4(seq![ceid]), ItemVal::List(reports_val(ev))]);
    SecsItem::List(top)
}

/// One host-command parameter as its item: `L,2 [CPNAME A, CPVAL]`.
pub open spec fn param_val(p: (Seq<char>, ItemVal)) -> ItemVal {
    ItemVal::List(seq![ItemVal::Ascii(p.0), p.1])
}

/// The host-command parameters as plain values.
pub open spec fn params_view(ps: Seq<(String, SecsItem)>) -> Seq<(Seq<char>, ItemVal)> {
    Seq::new(ps.len(), |i: int| (ps[i].0@, ps[i].1@))
}

/// An S2F41 body: `L,2 [RCMD A, L,n [L,2 [CPNAME A, CPVAL]...]]`.
pub open spec fn s2f41_val(rcmd: Seq<char>, ps: Seq<(Seq<char>, ItemVal)>) -> ItemVal {
    ItemVal::List(seq![ItemVal::Ascii(rcmd), ItemVal::List(Seq::new(ps.len(), |i: int| param_val(ps[i])))])
}

/// Build S2F41 "Host Command Send": the remote command and its named
/// parameters, in order.
pub fn s2f41_host_command(rcmd: &str, params: &[(String, SecsItem)]) -> (item: SecsItem)
    ensures
        item@ == s2f41_val(rcmd@, params_view(params@)),
{
    let ghost pv = params_view(params@);
    let mut items: Vec<SecsItem> = Vec::new();
    let mut i: usize = 0;
    while i < params.len()
        invariant
            i <= params@.len(),
            pv == params_view(params@),
            items@.len() == i,
            forall|j: int| 0 <= j < i ==> (#[trigger] items@[j])@ == param_val(pv[j]),
        decreases params@.len() - i,
    {
        let (name, value) = &params[i];
        let pair = vec![SecsItem::a(name.as_str()), value.duplicate()];
        proof {
            lemma_models_index(pair@);
        }
        assert(models(pair@) =~= seq![ItemVal::Ascii(pv[i as int].0), pv[i as int].1]);
        items.push(SecsItem::List(pair));
        i = i + 1;
    }
    proof {
        lemma_models_index(items@);
    }
    assert(models(items@) =~= Seq::new(pv.len(), |j: int| param_val(pv[j])));
    let top = vec![SecsItem::a(rcmd), SecsItem::List(items)];
    proof {
        lemma_models_index(top@);
    }
    assert(models(top@) =~= seq![ItemVal::Ascii(rcmd@), ItemVal::List(Seq::new(pv.len(), |j: int| param_val(pv[j])))]);
    SecsItem::List(top)
}

/// Build S6F12 "Event Report Acknowledge" (`B` DACKN, 0 = accepted).
pub fn s6f12_acknowledge(dackn: u8) -> (item: SecsItem)
    ensures
        item@ == ItemVal::Binary(seq![dackn]),
{
    let v = vec![dackn];
    assert(v@ =~= seq![dackn]);
    SecsItem::Binary(v)
}

/// The GEM error carrying `text`.
fn gem_error(text: &str) -> (e: SecsError)
    ensures
        e matches SecsError::Gem(t) && t@ == text@,
{
    SecsError::Gem(text.to_string())
}

/// A parse failure reported as a GEM error with exactly the given text.
pub open spec fn is_gem_error(e: SecsError, text: Seq<char>) -> bool {
    e matches SecsError::Gem(t) && t@ == text
}

/// A run of report entries whose prefix already fails fails the same way.
proof fn lemma_reports_prefix_err(rs: Seq<ItemVal>, k: int, t: Seq<char>)
    requires
        0 <= k <= rs.len(),
        parse_reports(rs.take(k)) == Err::<Seq<(u32, Seq<ItemVal>)>, Seq<char>>(t),
    ensures
        parse_reports(rs) == Err::<Seq<(u32, Seq<ItemVal>)>, Seq<char>>(t),
    decreases rs.len() - k,
{
    if k < rs.len() {
        let p = rs.take(k + 1);
        assert(p.drop_last() =~= rs.take(k));
        lemma_reports_prefix_err(rs, k + 1, t);
    } else {
        assert(rs.take(k) =~= rs);
    }
}

/// Parse one S6F11 report entry.
fn parse_entry(report: &SecsItem) -> (res: Result<(u32, Vec<SecsItem>), SecsError>)
    ensures
        match parse_report(report@) {
            Ok((r, vars)) => res matches Ok((r2, v2)) && r2 == r && models(v2@) == vars,
            Err(t) => res matches Err(e) && is_gem_error(e, t),
        },
{
    let pair = match report.as_list() {
        Some(p) => p,
        None => {
            return Err(gem_error("S6F11 report entry is not a list"));
        },
    };
    proof {
        lemma_models_index(pair@);
    }
    if pair.len() != 2 {
        let n = decimal_text(pair.len() as u64);
        return Err(SecsError::Gem(concat3("S6F11 report entry has ", n.as_str(), " items, expected 2")));
    }
    let rptid = match pair[0].as_u4() {
        Some(r) => r,
        None => {
            return Err(gem_error("S6F11 RPTID is not U4"));
        },
    };
    let variables = match pair[1].as_list() {
        Some(v) => v,
        None => {
            return Err(gem_error("S6F11 V-list is not a list"));
        },
    };
    Ok((rptid, duplicate_all(variables)))
}

/// Parse an S6F11 body into `(dataid, ceid, reports)` where each report is
/// `(rptid, variables)`.
pub fn parse_s6f11(body: &SecsItem) -> (res: Result<(u32, u32, Vec<ReportEntry>), SecsError>)
    ensures
        match parse_s6f11_val(body@) {
            Ok((d, c, rs)) => res matches Ok((d2, c2, v)) && d2 == d && c2 == c && entries_view(v@) == rs,
            Err(t) => res matches Err(e) && is_gem_error(e, t),
        },
{
    let items = match body.as_list() {
        Some(x) => x,
        None => {
            return Err(gem_error("S6F11 body is not a list"));
        },
    };
    proof {
        lemma_models_index(items@);
    }
    if items.len() != 3 {
        let n = decimal_text(items.len() as u64);
        return Err(SecsError::Gem(concat3("S6F11 body has ", n.as_str(), " items, expected 3")));
    }
    let dataid = match items[0].as_u4() {
        Some(d) => d,
        None => {
            return Err(gem_error("S6F11 DATAID is not U4"));
        },
    };
    let ceid = match items[1].as_u4() {
        Some(c) => c,
        None => {
            return Err(gem_error("S6F11 CEID is not U4"));
        },
    };
    let reps = match items[2].as_list() {
        Some(r) => r,
        None => {
            return Err(gem_error("S6F11 report list is not a list"));
        },
    };
    let ghost rv = models(reps@);
    proof {
        lemma_models_index(reps@);
    }
    let mut reports: Vec<ReportEntry> = Vec::new();
    let mut i: usize = 0;
    assert(rv.take(0) =~= Seq::<ItemVal>::empty());
    assert(models(items@)[2] == ItemVal::List(rv));
    assert(parse_s6f11_val(body@) == match parse_reports(rv) {
        Ok(rs) => Ok::<(u32, u32, Seq<(u32, Seq<ItemVal>)>), Seq<char>>((dataid, ceid, rs)),
        Err(t) => Err(t),
    });
    assert(entries_view(reports@) =~= Seq::<(u32, Seq<ItemVal>)>::empty());
    while i < reps.len()
        invariant
            parse_s6f11_val(body@) == match parse_reports(rv) {
                Ok(rs) => Ok::<(u32, u32, Seq<(u32, Seq<ItemVal>)>), Seq<char>>((dataid, ceid, rs)),
                Err(t) => Err(t),
            },
            i <= reps@.len(),
            rv == models(reps@),
            rv.len() == reps@.len(),
            forall|j: int| 0 <= j < reps@.len() ==> #[trigger] rv[j] == reps@[j]@,
            parse_reports(rv.take(i as int)) == Ok::<Seq<(u32, Seq<ItemVal>)>, Seq<char>>(entries_view(reports@)),
        decreases reps@.len() - i,
    {
        let ghost before = entries_view(reports@);
        let ghost p = rv.take(i + 1);
        assert(p.drop_last() =~= rv.take(i as int));
        assert(p.last() == reps@[i as int]@);
        match parse_entry(&reps[i]) {
            Err(e) => {
                proof {
                    lemma_reports_prefix_err(rv, i + 1, parse_report(reps@[i as int]@)->Err_0);
                }
                return Err(e);
            },
            Ok(entry) => {
                reports.push(entry);
                assert(entries_view(reports@) =~= before.push(parse_report(reps@[i as int]@)->Ok_0));
            },
        }
        i = i + 1;
    }
    assert(rv.take(i as int) =~= rv);
    Ok((dataid, ceid, reports))
}

/// Parsing a built S6F11 gives back its DATAID, CEID and reports.
pub proof fn lemma_s6f11_roundtrip(dataid: u32, ceid: u32, rs: Seq<(u32, Seq<ItemVal>)>)
    ensures
        parse_s6f11_val(s6f11_val(dataid, ceid, rs)) == Ok::<(u32, u32, Seq<(u32, Seq<ItemVal>)>), Seq<char>>((dataid, ceid, rs)),
{
    lemma_reports_roundtrip(rs);
}

/// Parsing built reports gives them back.
proof fn lemma_reports_roundtrip(rs: Seq<(u32, Seq<ItemVal>)>)
    ensures
        parse_reports(reports_val(rs)) == Ok::<Seq<(u32, Seq<ItemVal>)>, Seq<char>>(rs),
    decreases rs.len(),
{
    if rs.len() > 0 {
        let init = rs.drop_last();
        lemma_reports_roundtrip(init);
        assert(reports_val(rs).drop_last() =~= reports_val(init));
        assert(init.push(rs.last()) =~= rs);
    } else {
        assert(reports_val(rs) =~= Seq::<ItemVal>::empty());
        assert(rs =~= Seq::<(u32, Seq<ItemVal>)>::empty());
    }
}

/// The item list a run of host-command parameters is written as.
pub open spec fn params_val(ps: Seq<(Seq<char>, ItemVal)>) -> Seq<ItemVal> {
    Seq::new(ps.len(), |i: int| param_val(ps[i]))
}

/// One S2F41 parameter as `(CPNAME, CPVAL)`, or the text of what is wrong
/// with it.
pub open spec fn parse_param(v: ItemVal) -> Result<(Seq<char>, ItemVal), Seq<char>> {
    match v {
        ItemVal::List(p) => if p.len() != 2 {
            Err("S2F41 parameter has "@ + decimal(p.len()) + " items, expected 2"@)
        } else {
            match p[0] {
                ItemVal::Ascii(n) => Ok((n, p[1])),
                _ => Err("S2F41 CPNAME is not ASCII"@),
            }
        },
        _ => Err("S2F41 parameter is not a list"@),
    }
}

/// A run of S2F41 parameters, or the text of the first problem.
pub open spec fn parse_params(ps: Seq<ItemVal>) -> Result<Seq<(Seq<char>, ItemVal)>, Seq<char>>
    decreases ps.len(),
{
    if ps.len() == 0 {
        Ok(Seq::empty())
    } else {
        match parse_params(ps.drop_last()) {
            Err(t) => Err(t),
            Ok(es) => match parse_param(ps.last()) {
                Ok(e) => Ok(es.push(e)),
                Err(t) => Err(t),
            },
        }
    }
}

/// An S2F41 body as `(RCMD, parameters)`, or the text of the first problem.
pub open spec fn parse_s2f41_val(v: ItemVal) -> Result<(Seq<char>, Seq<(Seq<char>, ItemVal)>), Seq<char>> {
    match v {
        ItemVal::List(items) => if items.len() != 2 {
            Err("S2F41 body has "@ + decimal(items.len()) + " items, expected 2"@)
        } else {
            match items[0] {
                ItemVal::Ascii(r) => match items[1] {
                    ItemVal::List(ps) => match parse_params(ps) {
                        Ok(es) => Ok((r, es)),
                        Err(t) => Err(t),
                    },
                    _ => Err("S2F41 parameter list is not a list"@),
                },
                _ => Err("S2F41 RCMD is not ASCII"@),
            }
        },
        _ => Err("S2F41 body is not a list"@),
    }
}

/// A run of parameters whose prefix already fails fails the same way.
proof fn lemma_params_prefix_err(ps: Seq<ItemVal>, k: int, t: Seq<char>)
    requires
        0 <= k <= ps.len(),
        parse_params(ps.take(k)) == Err::<Seq<(Seq<char>, ItemVal)>, Seq<char>>(t),
    ensures
        parse_params(ps) == Err::<Seq<(Seq<char>, ItemVal)>, Seq<char>>(t),
    decreases ps.len() - k,
{
    if k < ps.len() {
        let p = ps.take(k + 1);
        assert(p.drop_last() =~= ps.take(k));
        lemma_params_prefix_err(ps, k + 1, t);
    } else {
        assert(ps.take(k) =~= ps);
    }
}

/// Parse one S2F41 parameter.
fn parse_param_item(item: &SecsItem) -> (res: Result<(String, SecsItem), SecsError>)
    ensures
        match parse_param(item@) {
            Ok((n, v)) => res matches Ok((n2, v2)) && n2@ == n && v2@ == v,
            Err(t) => res matches Err(e) && is_gem_error(e, t),
        },
{
    let pair = match item.as_list() {
        Some(p) => p,
        None => {
            return Err(gem_error("S2F41 parameter is not a list"));
        },
    };
    proof {
        lemma_models_index(pair@);
    }
    if pair.len() != 2 {
        let n = decimal_text(pair.len() as u64);
        return Err(SecsError::Gem(concat3("S2F41 parameter has ", n.as_str(), " items, expected 2")));
    }
    let name = match pair[0].as_ascii() {
        Some(n) => n,
        None => {
            return Err(gem_error("S2F41 CPNAME is not ASCII"));
        },
    };
    Ok((name.to_string(), pair[1].duplicate()))
}

/// Parse an S2F41 body into the remote command and its named parameters.
pub fn parse_s2f41(body: &SecsItem) -> (res: Result<(String, Vec<(String, SecsItem)>), SecsError>)
    ensures
        match parse_s2f41_val(body@) {
            Ok((r, ps)) => res matches Ok((r2, v)) && r2@ == r && params_view(v@) == ps,
            Err(t) => res matches Err(e) && is_gem_error(e, t),
        },
{
    let items = match body.as_list() {
        Some(x) => x,
        None => {
            return Err(gem_error("S2F41 body is not a list"));
        },
    };
    proof {
        lemma_models_index(items@);
    }
    if items.len() != 2 {
        let n = decimal_text(items.len() as u64);
        return Err(SecsError::Gem(concat3("S2F41 body has ", n.as_str(), " items, expected 2")));
    }
    let rcmd = match items[0].as_ascii() {
        Some(r) => r,
        None => {
            return Err(gem_error("S2F41 RCMD is not ASCII"));
        },
    };
    let ps = match items[1].as_list() {
        Some(p) => p,
        None => {
            return Err(gem_error("S2F41 parameter list is not a list"));
        },
    };
    let ghost pv = models(ps@);
    proof {
        lemma_models_index(ps@);
    }
    assert(models(items@)[1] == ItemVal::List(pv));
    let ghost whole = parse_s2f41_val(body@);
    assert(whole == match parse_params(pv) {
        Ok(es) => Ok::<(Seq<char>, Seq<(Seq<char>, ItemVal)>), Seq<char>>((rcmd@, es)),
        Err(t) => Err(t),
    });
    let mut params: Vec<(String, SecsItem)> = Vec::new();
    let mut i: usize = 0;
    assert(pv.take(0) =~= Seq::<ItemVal>::empty());
    assert(params_view(params@) =~= Seq::<(Seq<char>, ItemVal)>::empty());
    while i < ps.len()
        invariant
            whole == parse_s2f41_val(body@),
            whole == match parse_params(pv) {
                Ok(es) => Ok::<(Seq<char>, Seq<(Seq<char>, ItemVal)>), Seq<char>>((rcmd@, es)),
                Err(t) => Err(t),
            },
            i <= ps@.len(),
            pv == models(ps@),
            pv.len() == ps@.len(),
            forall|j: int| 0 <= j < ps@.len() ==> #[trigger] pv[j] == ps@[j]@,
            parse_params(pv.take(i as int)) == Ok::<Seq<(Seq<char>, ItemVal)>, Seq<char>>(params_view(params@)),
        decreases ps@.len() - i,
    {
        let ghost before = params_view(params@);
        let ghost p = pv.take(i + 1);
        assert(p.drop_last() =~= pv.take(i as int));
        assert(p.last() == ps@[i as int]@);
        match parse_param_item(&ps[i]) {
            Err(e) => {
                proof {
                    lemma_params_prefix_err(pv, i + 1, parse_param(ps@[i as int]@)->Err_0);
                }
                return Err(e);
            },
            Ok(entry) => {
                params.push(entry);
                assert(params_view(params@) =~= before.push(parse_param(ps@[i as int]@)->Ok_0));
            },
        }
        i = i + 1;
    }
    assert(pv.take(i as int) =~= pv);
    Ok((rcmd.to_string(), params))
}

/// Parsing a built S2F41 gives back its remote command and parameters.
pub proof fn lemma_s2f41_roundtrip(rcmd: Seq<char>, ps: Seq<(Seq<char>, ItemVal)>)
    ensures
        parse_s2f41_val(s2f41_val(rcmd, ps)) == Ok::<(Seq<char>, Seq<(Seq<char>, ItemVal)>), Seq<char>>((rcmd, ps)),
{
    lemma_params_roundtrip(ps);
    assert(Seq::new(ps.len(), |i: int| param_val(ps[i])) =~= params_val(ps));
}

/// Parsing built parameters gives them back.
proof fn lemma_params_roundtrip(ps: Seq<(Seq<char>, ItemVal)>)
    ensures
        parse_params(params_val(ps)) == Ok::<Seq<(Seq<char>, ItemVal)>, Seq<char>>(ps),
    decreases ps.len(),
{
    if ps.len() > 0 {
        let init = ps.drop_last();
        lemma_params_roundtrip(init);
        assert(params_val(ps).drop_last() =~= params_val(init));
        assert(init.push(ps.last()) =~= ps);
    } else {
        assert(params_val(ps) =~= Seq::<ItemVal>::empty());
        assert(ps =~= Seq::<(Seq<char>, ItemVal)>::empty());
    }
}

/// The ASCII text of an item, if it is one.
pub open spec fn ascii_of(v: ItemVal) -> Option<Seq<char>> {
    match v {
        ItemVal::Ascii(t) => Some(t),
        _ => None,
    }
}

/// An S1F2 reply as `(MDLN, SOFTREV)`, or the text of what is missing.
pub open spec fn parse_online_data_val(reply: Option<ItemVal>) -> Result<(Seq<char>, Seq<char>), Seq<char>> {
    match reply {
        Some(ItemVal::List(items)) => if items.len() < 1 || ascii_of(items[0]) is None {
            Err("S1F2 MDLN missing"@)
        } else if items.len() < 2 || ascii_of(items[1]) is None {
            Err("S1F2 SOFTREV missing"@)
        } else {
            Ok((ascii_of(items[0])->Some_0, ascii_of(items[1])->Some_0))
        },
        _ => Err("S1F2 body is not a list"@),
    }
}

/// The value of an optional reply.
pub open spec fn reply_view(reply: Option<&SecsItem>) -> Option<ItemVal> {
    match reply {
        Some(r) => Some(r@),
        None => None,
    }
}

/// Read MDLN and SOFTREV from an S1F2 reply.
pub fn parse_online_data(reply: Option<&SecsItem>) -> (res: Result<(String, String), SecsError>)
    ensures
        match parse_online_data_val(reply_view(reply)) {
            Ok((m, r)) => res matches Ok((m2, r2)) && m2@ == m && r2@ == r,
            Err(t) => res matches Err(e) && is_gem_error(e, t),
        },
{
    let items = match reply {
        Some(r) => match r.as_list() {
            Some(l) => l,
            None => {
                return Err(gem_error("S1F2 body is not a list"));
            },
        },
        None => {
            return Err(gem_error("S1F2 body is not a list"));
        },
    };
    proof {
        lemma_models_index(items@);
    }
    let model = if items.len() >= 1 {
        match items[0].as_ascii() {
            Some(m) => m,
            None => {
                return Err(gem_error("S1F2 MDLN missing"));
            },
        }
    } else {
        return Err(gem_error("S1F2 MDLN missing"));
    };
    let rev = if items.len() >= 2 {
        match items[1].as_ascii() {
            Some(r) => r,
            None => {
                return Err(gem_error("S1F2 SOFTREV missing"));
            },
        }
    } else {
        return Err(gem_error("S1F2 SOFTREV missing"));
    };
    Ok((model.to_string(), rev.to_string()))
}

/// An S1F14 reply's COMMACK (its first item's first boolean), or the text
/// of what is wrong.
pub open spec fn parse_s1f14_val(reply: Option<ItemVal>) -> Result<bool, Seq<char>> {
    match reply {
        Some(ItemVal::List(items)) => if items.len() > 0 && (items[0] matches ItemVal::Boolean(b) && b.len() > 0) {
            Ok(items[0]->Boolean_0[0])
        } else {
            Err("S1F14 COMMACK missing"@)
        },
        _ => Err("S1F14 body is not a list"@),
    }
}

/// Read whether communications were established from an S1F14 reply.
pub fn parse_s1f14(reply: Option<&SecsItem>) -> (res: Result<bool, SecsError>)
    ensures
        match parse_s1f14_val(reply_view(reply)) {
            Ok(b) => res == Ok::<bool, SecsError>(b),
            Err(t) => res matches Err(e) && is_gem_error(e, t),
        },
{
    let items = match reply {
        Some(r) => match r.as_list() {
            Some(l) => l,
            None => {
                return Err(gem_error("S1F14 body is not a list"));
            },
        },
        None => {
            return Err(gem_error("S1F14 body is not a list"));
        },
    };
    proof {
        lemma_models_index(items@);
    }
    if items.len() > 0 {
        match &items[0] {
            SecsItem::Boolean(v) => {
                if v.len() > 0 {
                    return Ok(v[0]);
                }
            },
            _ => {},
        }
    }
    Err(gem_error("S1F14 COMMACK missing"))
}

/// The first byte of a `B` reply, if any.
pub open spec fn dackn_of(reply: Option<SecsItem>) -> Option<u8> {
    match reply {
        Some(SecsItem::Binary(b)) => if b@.len() > 0 { Some(b@[0]) } else { None },
        _ => None,
    }
}

fn unexpected_reply(function: u8) -> (e: SecsError)
    ensures
        e matches SecsError::UnexpectedStreamFunction { stream, function: f, wanted } && stream == 6 && f == function
            && wanted@ == "S6F12 acknowledge"@,
{
    SecsError::UnexpectedStreamFunction { stream: 6, function, wanted: "S6F12 acknowledge".to_string() }
}

/// Host side: the DACKN of the reply to an S6F11 (1 when the reply carries
/// none); a reply other than F12 is an error.
pub fn host_event_ack(function: u8, reply: Option<SecsItem>) -> (res: Result<u8, SecsError>)
    ensures
        function != 12 ==> (res matches Err(SecsError::UnexpectedStreamFunction { stream, function: f, wanted })
            && stream == 6 && f == function && wanted@ == "S6F12 acknowledge"@),
        function == 12 ==> res == Ok::<u8, SecsError>(match dackn_of(reply) { Some(c) => c, None => 1 }),
{
    if function != 12 {
        return Err(unexpected_reply(function));
    }
    let dackn = match reply {
        Some(SecsItem::Binary(b)) => if b.len() > 0 { b[0] } else { 1 },
        _ => 1,
    };
    Ok(dackn)
}

/// The text of the error for a rejected event report.
pub open spec fn rejected_text(code: u8) -> Seq<char> {
    "host rejected event report, DACKN="@ + decimal(code as nat)
}

/// Equipment side: check the reply to an S6F11. A reply other than F12, or
/// a nonzero DACKN, is an error.
pub fn equipment_event_ack(function: u8, reply: Option<SecsItem>) -> (res: Result<(), SecsError>)
    ensures
        function != 12 ==> (res matches Err(SecsError::UnexpectedStreamFunction { stream, function: f, wanted })
            && stream == 6 && f == function && wanted@ == "S6F12 acknowledge"@),
        function == 12 ==> match dackn_of(reply) {
            Some(c) => if c != 0 { res matches Err(e) && is_gem_error(e, rejected_text(c)) } else { res is Ok },
            None => res is Ok,
        },
{
    if function != 12 {
        return Err(unexpected_reply(function));
    }
    let dackn = match reply {
        Some(SecsItem::Binary(b)) => if b.len() > 0 { Some(b[0]) } else { None },
        _ => None,
    };
    match dackn {
        Some(code) => {
            if code != 0 {
                let n = decimal_text(code as u64);
                proof {
                    reveal_strlit("");
                }
                let text = concat3("host rejected event report, DACKN=", n.as_str(), "");
                assert(text@ =~= rejected_text(code));
                return Err(SecsError::Gem(text));
            }
            Ok(())
        },
        None => Ok(()),
    }
}

/// The equipment-side GEM session used by the simulator: an HSMS session
/// plus the identity it answers S1F1 with.
pub struct EquipmentGem {
    session: HsmsSession,
    model_name: String,
    soft_rev: String,
}

impl EquipmentGem {
    /// The HSMS session underneath.
    pub closed spec fn sess(&self) -> HsmsSession {
        self.session
    }

    /// The HSMS session, to drive transactions on.
    pub fn session_mut(&mut self) -> (s: &mut HsmsSession)
        ensures
            *s == old(self).sess(),
            final(self).sess() == *final(s),
            final(self).model() == old(self).model(),
            final(self).revision() == old(self).revision(),
    {
        &mut self.session
    }

    /// The equipment's model name (MDLN).
    pub closed spec fn model(&self) -> Seq<char> {
        self.model_name@
    }

    /// The equipment's software revision (SOFTREV).
    pub closed spec fn revision(&self) -> Seq<char> {
        self.soft_rev@
    }

    pub fn new(session: HsmsSession, model_name: &str, soft_rev: &str) -> (g: Self)
        ensures
            g.sess() == session,
            g.model() == model_name@,
            g.revision() == soft_rev@,
    {
        EquipmentGem { session, model_name: model_name.to_string(), soft_rev: soft_rev.to_string() }
    }

    /// The equipment's answer to a host primary: S1F1 is answered with S1F2
    /// (its identity), S1F13 with an accepting S1F14, and an S2F41 host
    /// command with an S2F42 carrying HCACK 0 (accepted); other primaries
    /// get no answer.
    pub fn reply_for(&self, function: u8) -> (r: Option<SecsItem>)
        ensures
            function == 1 ==> (r matches Some(item) && item@ == ItemVal::List(seq![ItemVal::Ascii(self.model()), ItemVal::Ascii(self.revision())])),
            function == 13 ==> (r matches Some(item) && item@ == ItemVal::List(seq![ItemVal::Boolean(seq![true]), ItemVal::Ascii(commack_text(true))])),
            function == 41 ==> (r matches Some(item) && item@ == ItemVal::Binary(seq![0u8])),
            function != 1 && function != 13 && function != 41 ==> r is None,
    {
        if function == 1 {
            Some(s1f2_online_data(self.model_name.as_str(), self.soft_rev.as_str()))
        } else if function == 13 {
            Some(s1f14_establish_communications_ack(true))
        } else if function == 41 {
            let hcack = vec![0u8];
            assert(hcack@ =~= seq![0u8]);
            Some(SecsItem::Binary(hcack))
        } else {
            None
        }
    }
}

/// The host-side GEM session: an HSMS session plus the DATAID counter for
/// the event reports it sends.
pub struct HostGem {
    session: HsmsSession,
    next_dataid: u32,
}

impl HostGem {
    /// The DATAID the next event report will carry.
    pub closed spec fn dataid(&self) -> u32 {
        self.next_dataid
    }

    /// The HSMS session underneath.
    pub closed spec fn sess(&self) -> HsmsSession {
        self.session
    }

    /// The HSMS session, to drive transactions on.
    pub fn session_mut(&mut self) -> (s: &mut HsmsSession)
        ensures
            *s == old(self).sess(),
            final(self).sess() == *final(s),
            final(self).dataid() == old(self).dataid(),
    {
        &mut self.session
    }

    pub fn new(session: HsmsSession) -> (g: Self)
        ensures
            g.sess() == session,
            g.dataid() == 1,
    {
        HostGem { session, next_dataid: 1 }
    }

    /// The DATAID the next event report will carry.
    pub fn peek_dataid(&self) -> (d: u32)
        ensures
            d == self.dataid(),
    {
        self.next_dataid
    }

    /// Take the next DATAID (they count up from 1).
    pub fn take_dataid(&mut self) -> (d: u32)
        requires
            old(self).dataid() < u32::MAX,
        ensures
            d == old(self).dataid(),
            final(self).dataid() == old(self).dataid() + 1,
            final(self).sess() == old(self).sess(),
    {
        let d = self.next_dataid;
        self.next_dataid = self.next_dataid + 1;
        d
    }

    /// Unwrap the underlying HSMS session.
    pub fn into_session(self) -> (s: HsmsSession)
        ensures
            s == self.sess(),
    {
        self.session
    }
}

/// Receiving side of an event report: a served S6F11 primary yields its
/// parsed report; an S6F11 without a body is an error; other primaries are
/// skipped (`None`).
pub fn accept_event_report(stream: u8, function: u8, body: Option<SecsItem>) -> (res: Option<Result<(u32, u32, Vec<ReportEntry>), SecsError>>)
    ensures
        !(stream == 6 && function == 11) ==> res is None,
        stream == 6 && function == 11 && body is None ==> res == Some(Err::<(u32, u32, Vec<ReportEntry>), SecsError>(
            SecsError::MissingDataBody { stream: 6, function: 11 })),
        stream == 6 && function == 11 && body is Some ==> match parse_s6f11_val(body->Some_0@) {
            Ok((d, c, rs)) => res matches Some(Ok((d2, c2, v))) && d2 == d && c2 == c && entries_view(v@) == rs,
            Err(t) => res matches Some(Err(e)) && is_gem_error(e, t),
        },
{
    if stream == 6 && function == 11 {
        match body {
            None => Some(Err(SecsError::MissingDataBody { stream: 6, function: 11 })),
            Some(b) => Some(parse_s6f11(&b)),
        }
    } else {
        None
    }
}

} // verus!
