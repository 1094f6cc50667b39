//! The per-die report a simulated tester sends in its DIE_TESTED event
//! (S6F11): the die's coordinates and bin assignment as SECS-II items, in
//! the VID order of [`crate::secs::gem::vid`].

use crate::secs::error::SecsError;
use crate::secs::gem::is_gem_error;
use crate::secs::item::{lemma_models_index, models, ItemVal, SecsItem};
use crate::wafer::{DieCoord, DieTestOutcome};
use crate::text::{concat3, decimal, decimal_text};
use vstd::prelude::*;

verus! {

/// The report variables for one die: X, Y, hard bin, soft bin (all `U2`),
/// pass flag (`BOOLEAN`). Coordinates travel as 16-bit values.
pub open spec fn die_report_val(coord: DieCoord, outcome: DieTestOutcome) -> Seq<ItemVal> {
    seq![
        ItemVal::U2(seq![coord.x as u16]),
        ItemVal::U2(seq![coord.y as u16]),
        ItemVal::U2(seq![outcome.hard_bin]),
        ItemVal::U2(seq![outcome.soft_bin]),
        ItemVal::Boolean(seq![outcome.passed]),
    ]
}

/// The first element of a `U2` item.
pub open spec fn first_u2(v: ItemVal) -> Option<u16> {
    match v {
        ItemVal::U2(x) => if x.len() > 0 { Some(x[0]) } else { None },
        _ => None,
    }
}

/// A die report read back: the coordinate and outcome, or the text of the
/// first problem.
pub open spec fn decode_die_report_val(vs: Seq<ItemVal>) -> Result<(DieCoord, DieTestOutcome), Seq<char>> {
    if vs.len() != 5 {
        Err("die report has "@ + decimal(vs.len()) + " variables, expected 5"@)
    } else if first_u2(vs[0]) is None {
        Err("DIE_X is not U2"@)
    } else if first_u2(vs[1]) is None {
        Err("DIE_Y is not U2"@)
    } else if first_u2(vs[2]) is None {
        Err("HARD_BIN is not U2"@)
    } else if first_u2(vs[3]) is None {
        Err("SOFT_BIN is not U2"@)
    } else {
        match vs[4] {
            ItemVal::Boolean(b) => Ok((
                DieCoord { x: first_u2(vs[0])->Some_0 as i32, y: first_u2(vs[1])->Some_0 as i32 },
                DieTestOutcome {
                    passed: if b.len() > 0 { b[0] } else { false },
                    hard_bin: first_u2(vs[2])->Some_0,
                    soft_bin: first_u2(vs[3])->Some_0,
                },
            )),
            _ => Err("DIE_PASS is not BOOLEAN"@),
        }
    }
}

/// The per-die report variables carried in the S6F11 event.
pub fn encode_die_report(coord: DieCoord, outcome: &DieTestOutcome) -> (items: Vec<SecsItem>)
    ensures
        models(items@) == die_report_val(coord, *outcome),
{
    let pass = vec![outcome.passed];
    assert(pass@ =~= seq![outcome.passed]);
    let items = vec![
        SecsItem::u2(#[verifier::truncate] (coord.x as u16)),
        SecsItem::u2(#[verifier::truncate] (coord.y as u16)),
        SecsItem::u2(outcome.hard_bin),
        SecsItem::u2(outcome.soft_bin),
        SecsItem::Boolean(pass),
    ];
    proof {
        lemma_models_index(items@);
    }
    assert(models(items@) =~= die_report_val(coord, *outcome));
    items
}

fn gem_text(text: &str) -> (e: SecsError)
    ensures
        is_gem_error(e, text@),
{
    SecsError::Gem(text.to_string())
}

/// Decode a per-die report from S6F11 V-list positional order.
pub fn decode_die_report(variables: &[SecsItem]) -> (res: Result<(DieCoord, DieTestOutcome), SecsError>)
    ensures
        match decode_die_report_val(models(variables@)) {
            Ok((c, o)) => res == Ok::<(DieCoord, DieTestOutcome), SecsError>((c, o)),
            Err(t) => res matches Err(e) && is_gem_error(e, t),
        },
{
    proof {
        lemma_models_index(variables@);
    }
    if variables.len() != 5 {
        let n = decimal_text(variables.len() as u64);
        return Err(SecsError::Gem(concat3("die report has ", n.as_str(), " variables, expected 5")));
    }
    let x = match variables[0].as_u2() {
        Some(v) => v,
        None => {
            return Err(gem_text("DIE_X is not U2"));
        },
    };
    let y = match variables[1].as_u2() {
        Some(v) => v,
        None => {
            return Err(gem_text("DIE_Y is not U2"));
        },
    };
    let hard_bin = match variables[2].as_u2() {
        Some(v) => v,
        None => {
            return Err(gem_text("HARD_BIN is not U2"));
        },
    };
    let soft_bin = match variables[3].as_u2() {
        Some(v) => v,
        None => {
            return Err(gem_text("SOFT_BIN is not U2"));
        },
    };
    let passed = match &variables[4] {
        SecsItem::Boolean(v) => if v.len() > 0 { v[0] } else { false },
        _ => {
            return Err(gem_text("DIE_PASS is not BOOLEAN"));
        },
    };
    Ok((DieCoord::new(x as i32, y as i32), DieTestOutcome { passed, hard_bin, soft_bin }))
}

/// A die report decodes to the coordinate and outcome it was built from,
/// for coordinates that fit the report's 16-bit fields.
pub proof fn lemma_die_report_roundtrip(coord: DieCoord, outcome: DieTestOutcome)
    requires
        0 <= coord.x <= 0xFFFF,
        0 <= coord.y <= 0xFFFF,
    ensures
        decode_die_report_val(die_report_val(coord, outcome)) == Ok::<(DieCoord, DieTestOutcome), Seq<char>>((coord, outcome)),
{
}

} // verus!
