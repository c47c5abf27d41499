//! Component lifecycle engine for trees of hardware/firmware/documentation
//! modules ("components") stored as directories with standardized metadata.
//!
//! The engine works on an in-memory model of a directory tree ([`model::Dir`]).
//! All operations are pure: they take a model of the relevant part of the
//! filesystem plus the outcomes of any external tool runs, and return the new
//! model together with a structured outcome and, where external tools must be
//! driven, a plan of tool requests.  A thin front end mirrors the model to the
//! real filesystem and runs the planned subprocesses.

pub mod licenses;
pub mod metadata;
pub mod model;
pub mod ops;
pub mod orchestrator;
pub mod outcome;
pub mod scaffold;
pub mod text;

use vstd::prelude::*;

verus! {

/// Version of the engine, as shown by the command line front end.
pub fn engine_version() -> (r: &'static str)
    ensures
        r@ == "0.3.1"@,
{
    "0.3.1"
}

} // verus!
