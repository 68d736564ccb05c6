use vstd::prelude::*;

pub mod entry;
pub mod json;
pub mod mutator;
pub mod paths;
pub mod registry;
pub mod scope;
pub mod store;
pub mod text;

verus! {

} // verus!
