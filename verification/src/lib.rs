//! Verified decision logic of the HeliOS HTTP API: storage health,
//! startup reconciliation, recording naming and option parsing, and
//! stream manifest validation.
use vstd::prelude::*;

pub mod recording;
pub mod storage;
pub mod streams;
pub mod startup;
pub mod text;

verus! {

} // verus!
