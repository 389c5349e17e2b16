//! Verified parser for the line-oriented diagnostic log of a thermal-vacuum
//! functional test rig.
//!
//! The log cycles through three operating phases, each emitting a fixed-size
//! block of monitoring lines per sample. The library tracks the phase across
//! marker lines, frames blank-separated fixed-length blocks, interprets each
//! block into a typed sample record, and recovers from malformed blocks by
//! recording them as failed-block artifacts and resynchronizing at the next
//! block boundary. All of it is pure logic over in-memory lines; reading the
//! log file and writing the output table are left to the caller.

pub mod errors;
pub mod extract;
pub mod framer;
pub mod interpret;
pub mod laws;
pub mod phase;
pub mod records;
pub mod session;
