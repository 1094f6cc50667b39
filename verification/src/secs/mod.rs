//! SECS/GEM equipment communication (SEMI E5 / E30 / E37), built directly
//! against the published standards.
//!
//! Layering mirrors the standards:
//! - [`item`]: SECS-II (E5) typed data items and their wire encoding.
//! - [`hsms`]: HSMS-SS (E37.1) message framing and session state.
//! - [`gem`]: GEM (E30) stream/function transactions and the ATE event
//!   vocabulary (CEIDs/VIDs/RPTID) the simulator speaks.

pub mod error;
pub mod gem;
pub mod hsms;
pub mod item;
