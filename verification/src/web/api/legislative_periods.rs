//! Legislative periods under `/api/legislative-periods`.
use vstd::prelude::*;

verus! {

/// The query of `POST /api/legislative-periods` and the body of `PATCH`.
#[derive(Debug)]
pub struct CreateLegislativeParams {
    pub name: String,
}

} // verus!
