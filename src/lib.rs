use vstd::prelude::*;

pub mod plan;
pub mod command;
pub mod engine;
pub mod executor;
pub mod laws;
pub mod memory;
pub mod models;
pub mod order;
pub mod registry;
pub mod spec;

verus! {

} // verus!
