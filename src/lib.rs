use vstd::prelude::*;

pub mod container;
pub mod digest;
pub mod filter;
pub mod pipeline;
pub mod plan;
pub mod resolve;

verus! {

} // verus!
