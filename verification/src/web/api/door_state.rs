//! The door state under `/api/doorstate`.
use vstd::prelude::*;

use crate::instant::{spec_before, Instant};
use crate::web::validation::{check_instant_range, ValidationError};

verus! {

/// The query of `GET /api/doorstate/between`.
#[derive(Debug)]
pub struct GetDoorStateParams {
    pub start: Instant,
    pub end: Instant,
}

/// The range may not end before it starts.
pub fn validate_doorstate_params(params: &GetDoorStateParams) -> (r: Result<(), ValidationError>)
    ensures
        match r {
            Ok(()) => !spec_before(params.end, params.start),
            Err(e) => spec_before(params.end, params.start) && e.code@ == "doorstate_params"@
                && e.message@ == "start must be before end"@,
        },
{
    check_instant_range(params.start, params.end, "doorstate_params")
}

/// The body of `POST /api/doorstate`.
#[derive(Clone, Copy, Debug, PartialEq, Eq, Structural)]
pub struct CreateDoorStateParams {
    pub is_open: bool,
}

} // verus!
