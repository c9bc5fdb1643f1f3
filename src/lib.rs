//! Runtime core of a real-time engine: the actor lifecycle runtime and the
//! lazy texture compilation pipeline, each with its contracts.
use vstd::prelude::*;

pub mod gather;
pub mod texture;
pub mod world;

verus! {

} // verus!
