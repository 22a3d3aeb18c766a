use vstd::prelude::*;

pub mod instant;
pub mod text;
pub mod web;

verus! {

} // verus!
