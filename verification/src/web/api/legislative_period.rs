//! Legislative periods under `/api/legislative`.
use vstd::prelude::*;

verus! {

/// The query of `POST /api/legislative` and the body of `PATCH`.
#[derive(Debug)]
pub struct CreateLegislativeParams {
    pub name: String,
}

} // verus!
