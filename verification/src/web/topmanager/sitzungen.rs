//! Sitzungen and TOPs under the TOP manager's routes. Dates and times are
//! local to the Fachschaft and held as if they were UTC.
use vstd::prelude::*;

use crate::instant::Instant;

verus! {

/// The body that creates a Sitzung.
#[derive(Debug)]
pub struct CreateSitzungParams {
    pub datum: Instant,
    pub name: String,
    pub location: String,
}

/// The query for the Sitzung at a date.
#[derive(Debug)]
pub struct GetSitzungByDateParams {
    pub datum: Instant,
}

/// The body that changes a Sitzung.
#[derive(Debug)]
pub struct UpdateSitzungParams {
    pub id: u128,
    pub datum: Instant,
    pub name: String,
    pub location: String,
}

/// The Sitzung to delete.
#[derive(Debug)]
pub struct DeleteSitzungParams {
    pub id: u128,
}

/// The body that changes a TOP; `inhalt` is its JSON content.
#[derive(Debug)]
pub struct UpdateTopParams {
    pub id: u128,
    pub sitzung_id: u128,
    pub titel: String,
    pub inhalt: Option<serde_json::Value>,
    pub top_type: String,
}

/// The TOP to delete.
#[derive(Debug)]
pub struct DeleteTopParams {
    pub id: u128,
}

} // verus!
