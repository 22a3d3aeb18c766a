//! Abmeldungen under the second set of `/abmeldungen/` routes.
use vstd::prelude::*;

use crate::instant::Day;

verus! {

/// The body of `PUT /abmeldungen/`: a person is away from the first day to
/// the last.
#[derive(Debug)]
pub struct CreatePersonAbmeldungParams {
    pub person_id: u128,
    pub anfangsdatum: Day,
    pub ablaufdatum: Day,
}

} // verus!
