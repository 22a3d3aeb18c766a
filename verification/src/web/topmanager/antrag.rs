//! Anträge under the TOP manager's `/anträge` routes.
use vstd::prelude::*;

verus! {

/// The body of `PUT /antrag`.
#[derive(Debug)]
pub struct CreateAntragParams {
    pub titel: String,
    pub antragstext: String,
    /// Named `begründung` in the request.
    pub begruendung: String,
    pub antragssteller: String,
}

/// The body of `PATCH /antrag`.
#[derive(Debug)]
pub struct UpdateAntragParams {
    pub id: u128,
    pub titel: String,
    pub antragstext: String,
    /// Named `begründung` in the request.
    pub begruendung: String,
}

/// The Antrag that `DELETE /antrag` removes.
#[derive(Debug)]
pub struct DeleteAntragParams {
    pub id: u128,
}

} // verus!
