//! STDF (Standard Test Data Format) V4 read/write.

pub mod codec;
pub mod error;
pub mod fields;
pub mod reader;
pub mod records;
pub mod writer;
