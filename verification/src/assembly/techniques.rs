//! What every assembly backend shares: the record an executed command
//! yields, and the placement tolerance of the simulated equipment. The
//! execution flow itself never branches on technique.

use crate::assembly::backend::{AssemblyTechnique, PlacementCommand, PlacementRecord};
use crate::assembly::layout::PointNm;
use vstd::prelude::*;

verus! {

/// The simulated equipment's placement jitter in nm (uniform half-window
/// per axis).
pub const JITTER_HALF_WINDOW_NM: i64 = 15;

/// The model name the simulated equipment of a technique reports in S1F2.
pub open spec fn equipment_model(t: AssemblyTechnique) -> Seq<char> {
    match t {
        AssemblyTechnique::WireBond => "TPT-SIM-WB"@,
        AssemblyTechnique::FlipChip => "TPT-SIM-FC"@,
        AssemblyTechnique::ChipletPickPlace => "TPT-SIM-PP"@,
    }
}

/// The model name the simulated equipment of `technique` reports.
pub fn equipment_model_name(technique: AssemblyTechnique) -> (name: String)
    ensures
        name@ == equipment_model(technique),
{
    match technique {
        AssemblyTechnique::WireBond => "TPT-SIM-WB".to_string(),
        AssemblyTechnique::FlipChip => "TPT-SIM-FC".to_string(),
        AssemblyTechnique::ChipletPickPlace => "TPT-SIM-PP".to_string(),
    }
}

/// The placement tolerance the simulated equipment actually exhibits
/// (jitter half-window, Manhattan worst case about twice the per-axis
/// jitter), used to size the verification tolerance.
pub fn simulated_equipment_tolerance_nm() -> (t: i64)
    ensures
        t == JITTER_HALF_WINDOW_NM * 2 * 2,
{
    JITTER_HALF_WINDOW_NM * 2 * 2
}

/// The record of one executed command: the command's site, chiplet,
/// nominal target and orientation, the technique, and where the equipment
/// reports it placed the die.
pub fn placement_record(technique: AssemblyTechnique, command: &PlacementCommand, placed: PointNm) -> (r: PlacementRecord)
    ensures
        r.site_id@ == command.site_id@,
        r.chiplet_id@ == command.chiplet_id@,
        r.technique == technique,
        r.nominal == command.target,
        r.placed == placed,
        r.orientation == command.orientation,
{
    PlacementRecord {
        site_id: command.site_id.clone(),
        chiplet_id: command.chiplet_id.clone(),
        technique,
        nominal: command.target,
        placed,
        orientation: command.orientation,
    }
}

} // verus!
