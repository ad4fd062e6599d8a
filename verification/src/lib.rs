//! HiveDB: records addressed by coordinates in a bounded hexagonal grid.
//!
//! Cells hold versioned, optionally compressed, checksummed content. A grid
//! indexes cells by coordinate and keeps the links between neighbouring cells
//! reciprocal. A hive owns one grid and its metadata, and a manager keeps the
//! hives by id.

pub mod cell;
pub mod clock;
pub mod codec;
pub mod config;
pub mod entropy;
pub mod error;
pub mod float_bits;
pub mod geometry;
pub mod grid;
pub mod hive;
pub mod json;
pub mod links;
pub mod query;
pub mod schema;
pub mod text;
pub mod text_map;

use vstd::prelude::*;
use crate::error::HiveError;

verus! {

/// Prepares the database: the cell subsystem first, then the hive subsystem.
/// Neither can fail, so this succeeds.
pub fn init() -> (outcome: Result<(), HiveError>)
    ensures
        outcome is Ok,
{
    match cell::init() {
        Ok(()) => {},
        Err(e) => {
            return Err(e);
        },
    }
    match hive::init() {
        Ok(()) => {},
        Err(e) => {
            return Err(e);
        },
    }
    Ok(())
}

/// The version of this library.
pub fn version() -> (text: &'static str)
    ensures
        text@ == "0.1.0"@,
{
    "0.1.0"
}

/// The name under which the database presents itself.
pub fn name() -> (text: &'static str)
    ensures
        text@ == "HiveDB - نظام قواعد بيانات ثوري مستوحى من خلية النحل"@,
{
    "HiveDB - نظام قواعد بيانات ثوري مستوحى من خلية النحل"
}

} // verus!
