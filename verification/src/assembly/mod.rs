//! Physical assembly (wire bonding, flip-chip placement, chiplet
//! pick-and-place), guided by the interposer/chiplet layout as the
//! placement reference.
//!
//! Assembly technique is a swappable [`backend::AssemblyBackend`] behind one
//! core: the placement verification ([`verify`]) is identical regardless of
//! which physical technique runs.

pub mod backend;
pub mod layout;
pub mod link;
pub mod techniques;
pub mod verify;
