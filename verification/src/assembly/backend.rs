//! The `AssemblyBackend` trait (one core, swappable technique
//! implementations: wire bonding, flip-chip, chiplet pick-and-place) and the
//! plan/record types it works on. The core carries no
//! equipment-technique assumptions: everything technique-specific lives
//! behind a backend.

use crate::assembly::layout::{Orientation, PointNm};
use crate::secs::error::SecsError;
use vstd::prelude::*;

verus! {

/// The physical assembly techniques this crate can drive.
#[derive(Debug, Clone, Copy, PartialEq, Eq, Structural)]
pub enum AssemblyTechnique {
    WireBond,
    FlipChip,
    ChipletPickPlace,
}

/// The GEM remote-command label of each technique.
pub open spec fn rcmd_text(t: AssemblyTechnique) -> Seq<char> {
    match t {
        AssemblyTechnique::WireBond => "PLACE_WB"@,
        AssemblyTechnique::FlipChip => "PLACE_FC"@,
        AssemblyTechnique::ChipletPickPlace => "PLACE_PP"@,
    }
}

impl AssemblyTechnique {
    /// The GEM remote-command label the corresponding equipment class speaks.
    pub fn rcmd(self) -> (r: &'static str)
        ensures
            r@ == rcmd_text(self),
    {
        match self {
            AssemblyTechnique::WireBond => "PLACE_WB",
            AssemblyTechnique::FlipChip => "PLACE_FC",
            AssemblyTechnique::ChipletPickPlace => "PLACE_PP",
        }
    }
}

/// One placement command for the equipment.
#[derive(Debug, Clone, PartialEq)]
pub struct PlacementCommand {
    pub site_id: String,
    pub chiplet_id: String,
    /// Nominal bottom-left corner, nm.
    pub target: PointNm,
    pub orientation: Orientation,
}

/// A planned assembly run: the ordered commands the backend executes.
#[derive(Debug, Clone, PartialEq)]
pub struct PlacementPlan {
    pub plan_id: String,
    pub commands: Vec<PlacementCommand>,
}

/// What the equipment reports back for one executed command.
#[derive(Debug, Clone, PartialEq)]
pub struct PlacementRecord {
    pub site_id: String,
    pub chiplet_id: String,
    pub technique: AssemblyTechnique,
    pub nominal: PointNm,
    /// As-placed bottom-left corner reported by the equipment, nm.
    pub placed: PointNm,
    pub orientation: Orientation,
}

/// Errors from driving assembly equipment.
#[derive(Debug)]
pub enum AssemblyError {
    /// Equipment communication error.
    Comm(SecsError),
    /// The plan is empty.
    EmptyPlan { plan_id: String },
    /// Equipment rejected the command for a site.
    CommandRejected { site_id: String, hcack: u8 },
    /// A placement event for a site lacks a variable.
    MalformedEvent { site_id: String, name: String },
}

/// The pluggable backend contract: one [`AssemblyTechnique`], one
/// implementation. Cores never branch on technique; they dispatch through
/// this trait.
pub trait AssemblyBackend {
    fn technique(&self) -> AssemblyTechnique;

    /// Execute the whole plan against the backend's equipment connection
    /// and return one record per executed command, in execution order.
    fn place(&mut self, plan: &PlacementPlan) -> Result<Vec<PlacementRecord>, AssemblyError>;
}

} // verus!
