//! File-based outcome exchange: reports are standalone JSON files,
//! manually sent. This module holds the two checks of that exchange — the
//! consent check before a report is written for sharing and the schema
//! check after one is read. There is no live API and no network transport,
//! by design.

use crate::aggregate::schema::{current_schema, readable, version_text, ConsentScope, OutcomeReport, SchemaVersion};
use vstd::prelude::*;

verus! {

/// Errors from the file exchange and ingestion path.
#[derive(Debug, Clone, PartialEq)]
pub enum AggregateError {
    /// The file's text is not a valid report.
    MalformedJson(String),
    /// The file's schema version is not readable by this side.
    UnsupportedSchemaVersion { found: String, supported: String },
    /// The report's consent scope forbids transmission.
    ConsentForbidsSharing(ConsentScope),
}

/// The JSON implementation of the file exchange. Files are standalone: no
/// sidecar state, no network, manually carried. Signing is out of band —
/// a report's `signature` field is carried through untouched.
#[derive(Debug, Clone, Copy, PartialEq, Eq, Structural)]
pub struct JsonOutcomeFile {
    /// Highest schema version this side understands (same major, minor at
    /// most this one).
    pub supported_schema: SchemaVersion,
}

impl JsonOutcomeFile {
    /// An exchange that reads the version this library writes.
    pub fn new() -> (f: JsonOutcomeFile)
        ensures
            f.supported_schema == current_schema(),
    {
        JsonOutcomeFile { supported_schema: SchemaVersion::current() }
    }

    /// Checked before a report is written for sharing: a report whose
    /// consent is `NoSharing` is used locally and never serialized for
    /// transport.
    pub fn check_shareable(&self, report: &OutcomeReport) -> (r: Result<(), AggregateError>)
        ensures
            r is Ok <==> report.consent != ConsentScope::NoSharing,
            r is Err ==> r == Err::<(), AggregateError>(AggregateError::ConsentForbidsSharing(ConsentScope::NoSharing)),
    {
        if report.consent == ConsentScope::NoSharing {
            Err(AggregateError::ConsentForbidsSharing(report.consent))
        } else {
            Ok(())
        }
    }

    /// Checked after a report is read: its schema version must be
    /// readable by this side; otherwise both versions are named in the
    /// error, as `major.minor`.
    pub fn check_readable(&self, report: OutcomeReport) -> (r: Result<OutcomeReport, AggregateError>)
        ensures
            readable(report.schema_version, self.supported_schema) ==> r == Ok::<OutcomeReport, AggregateError>(report),
            !readable(report.schema_version, self.supported_schema) ==> (r matches Err(AggregateError::UnsupportedSchemaVersion { found, supported })
                && found@ == version_text(report.schema_version)
                && supported@ == version_text(self.supported_schema)),
    {
        if report.schema_version.is_readable_by(&self.supported_schema) {
            Ok(report)
        } else {
            Err(AggregateError::UnsupportedSchemaVersion {
                found: report.schema_version.to_string(),
                supported: self.supported_schema.to_string(),
            })
        }
    }
}

impl Default for JsonOutcomeFile {
    fn default() -> (f: Self)
        ensures
            f.supported_schema == current_schema(),
    {
        JsonOutcomeFile::new()
    }
}

} // verus!
