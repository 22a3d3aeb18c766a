//! The door state under the oldest `/doorstate/` routes, without checks.
use vstd::prelude::*;

use crate::instant::Instant;

verus! {

/// The query of `GET /doorstate/between/`.
#[derive(Debug)]
pub struct GetDoorStateParams {
    pub start: Instant,
    pub end: Instant,
}

/// The body of `POST /doorstate/`.
#[derive(Clone, Copy, Debug, PartialEq, Eq, Structural)]
pub struct CreateDoorStateParams {
    pub is_open: bool,
}

} // verus!
