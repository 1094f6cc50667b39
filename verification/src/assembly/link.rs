//! The host's side of a placement host command: whether the equipment's
//! S2F42 acknowledged it, then the placement-complete event it waits for
//! (site, as-placed X and Y) and how it picks its site's position out of an
//! S6F11.

use crate::assembly::backend::{AssemblyError, PlacementCommand};
use crate::assembly::layout::PointNm;
use crate::secs::error::SecsError;
use crate::secs::gem::{entries_view, is_gem_error, parse_s2f41, parse_s2f41_val, s2f41_host_command, s2f41_val, ReportEntry};
use crate::secs::item::{lemma_models_index, models, ItemVal, SecsItem};
use crate::text::{concat2, concat3, decimal, decimal_text, same_text};
use vstd::prelude::*;

verus! {

/// CEID: a placement completed; the report carries the site and its
/// as-placed position (V-list: SITE A, X U4, Y U4, positional).
pub const CEID_PLACEMENT_DONE: u32 = 201;

/// CEID: the whole assembly run completed.
pub const CEID_RUN_COMPLETE: u32 = 202;

/// The parameters of a placement host command: the site, then the target's
/// X and Y as the event carries coordinates.
pub open spec fn command_params(site_id: Seq<char>, target: PointNm) -> Seq<(Seq<char>, ItemVal)> {
    seq![
        ("SITE"@, ItemVal::Ascii(site_id)),
        ("X"@, ItemVal::U4(seq![reported(target.x)])),
        ("Y"@, ItemVal::U4(seq![reported(target.y)])),
    ]
}

/// The S2F41 body a host sends for one placement command.
pub fn placement_host_command(rcmd: &str, command: &PlacementCommand) -> (item: SecsItem)
    ensures
        item@ == s2f41_val(rcmd@, command_params(command.site_id@, command.target)),
{
    let x: u32 = if command.target.x < 0 { 0 } else { #[verifier::truncate] (command.target.x as u32) };
    let y: u32 = if command.target.y < 0 { 0 } else { #[verifier::truncate] (command.target.y as u32) };
    let params = vec![
        ("SITE".to_string(), SecsItem::a(command.site_id.as_str())),
        ("X".to_string(), SecsItem::u4(x)),
        ("Y".to_string(), SecsItem::u4(y)),
    ];
    let item = s2f41_host_command(rcmd, params.as_slice());
    assert(crate::secs::gem::params_view(params@) =~= command_params(command.site_id@, command.target));
    item
}

/// HCACK: the command was accepted and performed (SEMI E30).
pub const HCACK_OK: u8 = 0;

/// The HCACK an S2F42 reply carries: the first byte of its binary item, or
/// 1 when the reply carries no such byte.
pub open spec fn hcack_of(reply: Option<SecsItem>) -> u8 {
    match reply {
        Some(item) => match item@ {
            ItemVal::Binary(b) => if b.len() > 0 { b[0] } else { 1 },
            _ => 1,
        },
        None => 1,
    }
}

/// The host's check of the answer to a placement host command for
/// `site_id`: the answer must be S2F42 and carry HCACK [`HCACK_OK`].
pub fn command_acknowledged(site_id: &str, function: u8, reply: &Option<SecsItem>) -> (r: Result<(), AssemblyError>)
    ensures
        function != 42 ==> (r matches Err(AssemblyError::Comm(SecsError::UnexpectedStreamFunction { stream, function: f, wanted }))
            && stream == 2 && f == function && wanted@ == "S2F42 acknowledge"@),
        function == 42 && hcack_of(*reply) != HCACK_OK ==> (r matches Err(AssemblyError::CommandRejected { site_id: s, hcack })
            && s@ == site_id@ && hcack == hcack_of(*reply)),
        function == 42 && hcack_of(*reply) == HCACK_OK ==> r is Ok,
{
    if function != 42 {
        return Err(AssemblyError::Comm(SecsError::UnexpectedStreamFunction {
            stream: 2,
            function,
            wanted: "S2F42 acknowledge".to_string(),
        }));
    }
    let hcack: u8 = match reply {
        Some(SecsItem::Binary(b)) => if b.len() > 0 { b[0] } else { 1 },
        _ => 1,
    };
    if hcack != HCACK_OK {
        return Err(AssemblyError::CommandRejected { site_id: site_id.to_string(), hcack });
    }
    Ok(())
}

/// The equipment's check of the host primary it expects for the placement
/// of `site_id`: an S2F41 with a body whose remote command is `rcmd`, the
/// one its technique performs.
pub fn accept_host_command(rcmd: &str, site_id: &str, stream: u8, function: u8, body: Option<&SecsItem>) -> (r: Result<(), SecsError>)
    ensures
        !(stream == 2 && function == 41) ==> (r matches Err(SecsError::UnexpectedStreamFunction { stream: s, function: f, wanted })
            && s == stream && f == function && wanted@ == "S2F41 for site "@ + site_id@),
        stream == 2 && function == 41 && body is None ==> r == Err::<(), SecsError>(SecsError::MissingDataBody { stream: 2, function: 41 }),
        stream == 2 && function == 41 && body is Some ==> match parse_s2f41_val(body->Some_0@) {
            Err(t) => r matches Err(e) && is_gem_error(e, t),
            Ok((got, _)) => if got == rcmd@ {
                r is Ok
            } else {
                r matches Err(e) && is_gem_error(e, "equipment "@ + rcmd@ + " got host command "@ + got)
            },
        },
{
    if !(stream == 2 && function == 41) {
        return Err(SecsError::UnexpectedStreamFunction { stream, function, wanted: concat2("S2F41 for site ", site_id) });
    }
    let item = match body {
        Some(b) => b,
        None => {
            return Err(SecsError::MissingDataBody { stream: 2, function: 41 });
        },
    };
    let (got, _params) = parse_s2f41(item)?;
    if !same_text(got.as_str(), rcmd) {
        let head = concat3("equipment ", rcmd, " got host command ");
        return Err(SecsError::Gem(concat2(head.as_str(), got.as_str())));
    }
    Ok(())
}

/// A coordinate as the event carries it: negative values clamp to zero,
/// the rest keep their low 32 bits.
pub open spec fn reported(v: i64) -> u32 {
    if v < 0 { 0 } else { v as u32 }
}

/// The report variables for a completed placement.
pub open spec fn placement_vars(site_id: Seq<char>, placed: PointNm) -> Seq<ItemVal> {
    seq![ItemVal::Ascii(site_id), ItemVal::U4(seq![reported(placed.x)]), ItemVal::U4(seq![reported(placed.y)])]
}

/// The report variables the equipment sends for a completed placement.
pub fn placement_event_variables(site_id: &str, placed: PointNm) -> (vars: Vec<SecsItem>)
    ensures
        models(vars@) == placement_vars(site_id@, placed),
{
    let x: u32 = if placed.x < 0 { 0 } else { #[verifier::truncate] (placed.x as u32) };
    let y: u32 = if placed.y < 0 { 0 } else { #[verifier::truncate] (placed.y as u32) };
    let vars = vec![SecsItem::a(site_id), SecsItem::u4(x), SecsItem::u4(y)];
    proof {
        lemma_models_index(vars@);
    }
    assert(models(vars@) =~= placement_vars(site_id@, placed));
    vars
}

/// What one report entry says about `site_id`'s placement.
pub enum EntryReading {
    /// The entry is about another site.
    Other,
    /// The entry reports this position for the site.
    Placed(PointNm),
    /// The entry is malformed; the name says what is wrong.
    Malformed(Seq<char>),
}

/// The first element of a `U4` item.
pub open spec fn u4_first(v: ItemVal) -> Option<u32> {
    match v {
        ItemVal::U4(x) => if x.len() > 0 { Some(x[0]) } else { None },
        _ => None,
    }
}

/// Read one report entry's V-list for `site_id`.
pub open spec fn read_entry(vars: Seq<ItemVal>, site_id: Seq<char>) -> EntryReading {
    if vars.len() != 3 {
        EntryReading::Malformed("V-list of "@ + decimal(vars.len()))
    } else {
        match vars[0] {
            ItemVal::Ascii(s) => if s != site_id {
                EntryReading::Other
            } else if u4_first(vars[1]) is None {
                EntryReading::Malformed("X"@)
            } else if u4_first(vars[2]) is None {
                EntryReading::Malformed("Y"@)
            } else {
                EntryReading::Placed(PointNm { x: u4_first(vars[1])->Some_0 as i64, y: u4_first(vars[2])->Some_0 as i64 })
            },
            _ => EntryReading::Malformed("SITE"@),
        }
    }
}

/// The first report entry that is about `site_id` or malformed, in order.
pub open spec fn scan_entries(rs: Seq<(u32, Seq<ItemVal>)>, site_id: Seq<char>) -> EntryReading
    decreases rs.len(),
{
    if rs.len() == 0 {
        EntryReading::Other
    } else {
        match read_entry(rs[0].1, site_id) {
            EntryReading::Other => scan_entries(rs.subrange(1, rs.len() as int), site_id),
            r => r,
        }
    }
}

/// An error naming a malformed placement event.
pub open spec fn is_malformed(e: AssemblyError, site_id: Seq<char>, name: Seq<char>) -> bool {
    e matches AssemblyError::MalformedEvent { site_id: s, name: n } && s@ == site_id && n@ == name
}

/// Look for `site_id`'s as-placed position in a parsed S6F11 event. Events
/// with another CEID, and reports about other sites, are passed over
/// (`None`); the first report about the site gives its position, or an
/// error when it is malformed.
pub fn placement_event(site_id: &str, ceid: u32, reports: &[ReportEntry]) -> (r: Option<Result<PointNm, AssemblyError>>)
    ensures
        ceid != CEID_PLACEMENT_DONE ==> r is None,
        ceid == CEID_PLACEMENT_DONE ==> match scan_entries(entries_view(reports@), site_id@) {
            EntryReading::Other => r is None,
            EntryReading::Placed(p) => r matches Some(Ok(q)) && q == p,
            EntryReading::Malformed(name) => r matches Some(Err(e)) && is_malformed(e, site_id@, name),
        },
{
    if ceid != CEID_PLACEMENT_DONE {
        return None;
    }
    let ghost ev = entries_view(reports@);
    let mut i: usize = 0;
    assert(ev.subrange(0, ev.len() as int) =~= ev);
    while i < reports.len()
        invariant
            ceid == CEID_PLACEMENT_DONE,
            i <= reports@.len(),
            ev == entries_view(reports@),
            scan_entries(ev, site_id@) == scan_entries(ev.subrange(i as int, ev.len() as int), site_id@),
        decreases reports@.len() - i,
    {
        let ghost rest = ev.subrange(i as int, ev.len() as int);
        assert(rest.subrange(1, rest.len() as int) =~= ev.subrange(i + 1, ev.len() as int));
        let variables = &reports[i].1;
        proof {
            lemma_models_index(variables@);
        }
        if variables.len() != 3 {
            let n = decimal_text(variables.len() as u64);
            return Some(Err(AssemblyError::MalformedEvent { site_id: site_id.to_string(), name: concat2("V-list of ", n.as_str()) }));
        }
        let reported_site = match variables[0].as_ascii() {
            Some(s) => s,
            None => {
                return Some(Err(AssemblyError::MalformedEvent { site_id: site_id.to_string(), name: "SITE".to_string() }));
            },
        };
        if same_text(reported_site, site_id) {
            let x = match variables[1].as_u4() {
                Some(v) => v,
                None => {
                    return Some(Err(AssemblyError::MalformedEvent { site_id: site_id.to_string(), name: "X".to_string() }));
                },
            };
            let y = match variables[2].as_u4() {
                Some(v) => v,
                None => {
                    return Some(Err(AssemblyError::MalformedEvent { site_id: site_id.to_string(), name: "Y".to_string() }));
                },
            };
            return Some(Ok(PointNm::new(x as i64, y as i64)));
        }
        i = i + 1;
    }
    None
}

/// The equipment's report for a placement reads back, on the host, as the
/// placed position, for positions that fit the event's 32-bit fields.
pub proof fn lemma_placement_event_roundtrip(site_id: Seq<char>, placed: PointNm)
    requires
        0 <= placed.x <= u32::MAX,
        0 <= placed.y <= u32::MAX,
    ensures
        read_entry(placement_vars(site_id, placed), site_id) == EntryReading::Placed(placed),
{
}

/// The host's check of the equipment's S1F2 answer during connection: the
/// equipment must report a model number.
pub fn check_model_reported(model: &str) -> (r: Result<(), SecsError>)
    ensures
        model@.len() == 0 ==> (r matches Err(e) && is_gem_error(e, "equipment reported empty model number"@)),
        model@.len() != 0 ==> r is Ok,
{
    proof {
        reveal_strlit("");
        assert(""@ =~= Seq::<char>::empty());
        assert(model@.len() == 0 ==> model@ =~= Seq::<char>::empty());
    }
    if same_text(model, "") {
        return Err(SecsError::Gem("equipment reported empty model number".to_string()));
    }
    Ok(())
}

/// The host's check of the equipment's S1F14 answer during connection: the
/// equipment must accept communications.
pub fn check_communications_accepted(accepted: bool) -> (r: Result<(), SecsError>)
    ensures
        !accepted ==> (r matches Err(e) && is_gem_error(e, "equipment refused to establish communications"@)),
        accepted ==> r is Ok,
{
    if !accepted {
        return Err(SecsError::Gem("equipment refused to establish communications".to_string()));
    }
    Ok(())
}

} // verus!
