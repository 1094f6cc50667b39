//! The outcome-report schema, extended with the test & assembly track.
//!
//! One schema, no parallel file format: test/assembly results ride inside
//! the same [`OutcomeReport`] the wafer-fab stage uses, via the
//! [`ManufacturingTrack::TestAssembly`] variant. Measured quantities are
//! carried as IEEE-754 `f64` bit patterns; the report identifier is the
//! 128-bit value of its UUID.

use crate::aggregate::outcome::TestOutcome;
use crate::text::{concat3, decimal, decimal_text};
use vstd::prelude::*;

verus! {

/// The manufacturing track discriminator (`Pcb | WaferLitho(..)`),
/// extended with the test & assembly stage.
#[derive(Debug, Clone, PartialEq)]
pub enum ManufacturingTrack {
    /// PCB fabrication.
    Pcb,
    /// Wafer-level patterning; the payload names the litho technology.
    WaferLitho(PatterningTech),
    /// Test & assembly: carries the [`TestOutcome`] inside the track
    /// variant — one schema, one ingestion path.
    TestAssembly(TestOutcome),
}

/// Patterning technology of the litho backends.
#[derive(Debug, Clone, Copy, PartialEq, Eq, Structural)]
pub enum PatterningTech {
    Euv,
    DuvMultiPattern,
    Nil,
    Ebeam,
}

/// As-built vs. as-designed geometry, keyed by a semantic ID. At the
/// assembly stage the key is the placement site ID and the deviation is
/// the placement error in nm.
#[derive(Debug, Clone, PartialEq)]
pub struct GeometryDeviation {
    /// Semantic key: the fabric link ID at fab stage, the site ID here.
    pub key: String,
    /// Signed magnitude of the deviation in the stage's native unit
    /// (`f64` bits).
    pub deviation: u64,
    pub note: String,
}

/// An electrical measurement, keyed by the semantic ID of the measured
/// path (package net or die-to-die link).
#[derive(Debug, Clone, PartialEq)]
pub struct ElectricalMeasurement {
    pub key: String,
    pub quantity: MeasurementQuantity,
    /// Measured value (`f64` bits).
    pub measured_value: u64,
    pub unit: String,
    pub passed: bool,
}

/// What a measurement measures.
#[derive(Debug, Clone, Copy, PartialEq, Eq, Structural)]
pub enum MeasurementQuantity {
    Impedance,
    Skew,
    IrDrop,
    Leakage,
    Continuity,
}

/// Lot/run-level yield summary.
#[derive(Debug, Clone, PartialEq)]
pub struct YieldSummary {
    pub total_units: u32,
    pub good_units: u32,
    /// Good / total over tested units (`f64` bits).
    pub yield_fraction: u64,
}

/// A deviation observed in process.
#[derive(Debug, Clone, PartialEq)]
pub struct ProcessDeviation {
    /// Short machine-readable code (e.g. "PLACEMENT_OFFSET_HIGH").
    pub code: String,
    pub description: String,
}

/// Consent scope travelling inside the report: the ingestion pipeline
/// enforces it.
#[derive(Debug, Clone, Copy, PartialEq, Eq, Structural)]
pub enum ConsentScope {
    /// Raw data, shared only between this fab and the design house.
    PrivateBilateral,
    /// Fab-side aggregation only; feeds the shared public model.
    AggregatedContribution,
    /// Outcome tooling used locally, nothing transmitted.
    NoSharing,
}

/// Semver-style schema version: a reader rejects unrecognized minor
/// versions rather than silently misinterpreting a changed field.
#[derive(Debug, Clone, Copy, PartialEq, Eq, Structural)]
pub struct SchemaVersion {
    pub major: u32,
    pub minor: u32,
}

/// Whether a report written at `v` can be read by a reader at `reader`:
/// same major and a known-or-older minor.
pub open spec fn readable(v: SchemaVersion, reader: SchemaVersion) -> bool {
    v.major == reader.major && v.minor <= reader.minor
}

/// The text of a version, `major.minor`.
pub open spec fn version_text(v: SchemaVersion) -> Seq<char> {
    decimal(v.major as nat) + "."@ + decimal(v.minor as nat)
}

/// The version this library writes.
pub open spec fn current_schema() -> SchemaVersion {
    SchemaVersion { major: 0, minor: 1 }
}

impl SchemaVersion {
    /// The version this library writes.
    pub fn current() -> (v: SchemaVersion)
        ensures
            v == current_schema(),
    {
        SchemaVersion { major: 0, minor: 1 }
    }

    /// Same major and a known-or-older minor is readable; anything else is
    /// rejected.
    pub fn is_readable_by(&self, ingestor: &SchemaVersion) -> (b: bool)
        ensures
            b == readable(*self, *ingestor),
    {
        self.major == ingestor.major && self.minor <= ingestor.minor
    }

    /// The version as text, `major.minor`.
    pub fn to_string(&self) -> (s: String)
        ensures
            s@ == version_text(*self),
    {
        let major = decimal_text(self.major as u64);
        let minor = decimal_text(self.minor as u64);
        concat3(major.as_str(), ".", minor.as_str())
    }
}

/// A version can read what it writes, and readability chains: a report a
/// middle version can read is readable by any version that can read the
/// middle one's reports.
pub proof fn lemma_readable_preorder(a: SchemaVersion, b: SchemaVersion, c: SchemaVersion)
    ensures
        readable(a, a),
        readable(a, b) && readable(b, c) ==> readable(a, c),
{
}

/// Detached signature for the offline signed-file mode: the file is valid
/// standalone; the pipeline verifies out of band.
#[derive(Debug, Clone, PartialEq, Eq)]
pub struct Signature {
    /// Signature algorithm identifier (e.g. "ed25519").
    pub algorithm: String,
    /// Opaque signature value (base64 in the JSON encoding).
    pub value: String,
}

/// The outcome report: the one file format for every stage; `track`
/// discriminates.
#[derive(Debug, Clone, PartialEq)]
pub struct OutcomeReport {
    /// Ties back to the exact payload sent out for this run (the UUID's
    /// 128-bit value).
    pub payload_manifest_id: u128,
    pub track: ManufacturingTrack,
    /// As-built vs. as-designed, keyed by semantic ID.
    pub measured_geometry: Vec<GeometryDeviation>,
    /// Electrical results keyed to the same semantic IDs.
    pub electrical_test: Vec<ElectricalMeasurement>,
    pub yield_outcome: YieldSummary,
    pub process_notes: Vec<ProcessDeviation>,
    pub consent: ConsentScope,
    pub schema_version: SchemaVersion,
    /// Present only when the fab signs its offline exports.
    pub signature: Option<Signature>,
}

} // verus!
