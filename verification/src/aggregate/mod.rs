//! The outcome-report exchange, extended with bin/yield data from the test
//! & assembly stage: the report schema, the test outcome with its
//! minimum-cohort rule, and the checks of the offline file exchange.

pub mod file;
pub mod outcome;
pub mod schema;
