//! Operational software for wafer test and physical assembly: SECS/GEM
//! equipment communication, STDF result files, wafer maps and bin sorting,
//! placement verification, and the outcome-report schema.

use vstd::prelude::*;

pub mod aggregate;
pub mod assembly;
pub mod bin_sort;
pub mod bins;
pub mod order;
pub mod patterns;
pub mod recording;
pub mod rng;
pub mod secs;
pub mod sim;
pub mod stdf;
pub mod text;
pub mod wafer;

verus! {

} // verus!
