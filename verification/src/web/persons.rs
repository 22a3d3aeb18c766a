//! Persons under the older `/persons/` routes: the checks of the request
//! bodies.
use vstd::prelude::*;

use crate::instant::Day;
use crate::web::validation::{check_day_range, outcome, require_length, require_optional_length, texts, ValidationError};

verus! {

/// The body of `PUT /persons/`.
#[derive(Debug)]
pub struct CreatePersonParams {
    pub name: String,
}

impl CreatePersonParams {
    /// The name is non-empty.
    pub fn validate(&self) -> (r: Result<(), Vec<String>>)
        ensures
            match r {
                Ok(()) => self.name@.len() >= 1,
                Err(v) => self.name@.len() == 0 && texts(v@) == seq!["name"@],
            },
    {
        let mut errors: Vec<String> = Vec::new();
        require_length(&mut errors, "name", self.name.as_str());
        assert(texts(errors@).len() == errors@.len());
        outcome(errors)
    }
}

/// The body of `PATCH /persons/{id}/`.
#[derive(Debug)]
pub struct UpdatePersonParams {
    pub name: Option<String>,
}

impl UpdatePersonParams {
    /// A given name is non-empty.
    pub fn validate(&self) -> (r: Result<(), Vec<String>>)
        ensures
            match r {
                Ok(()) => self.name matches Some(n) ==> n@.len() >= 1,
                Err(v) => self.name matches Some(n) && n@.len() == 0 && texts(v@) == seq!["name"@],
            },
    {
        let mut errors: Vec<String> = Vec::new();
        require_optional_length(&mut errors, "name", &self.name);
        assert(texts(errors@).len() == errors@.len());
        outcome(errors)
    }
}

/// The body of the role routes under `/persons/{id}/roles`.
#[derive(Debug)]
pub struct RoleParams {
    pub role: String,
}

impl RoleParams {
    /// The role is non-empty.
    pub fn validate(&self) -> (r: Result<(), Vec<String>>)
        ensures
            match r {
                Ok(()) => self.role@.len() >= 1,
                Err(v) => self.role@.len() == 0 && texts(v@) == seq!["role"@],
            },
    {
        let mut errors: Vec<String> = Vec::new();
        require_length(&mut errors, "role", self.role.as_str());
        assert(texts(errors@).len() == errors@.len());
        outcome(errors)
    }
}

/// The days of an absence.
#[derive(Debug)]
pub struct AbmeldungParams {
    pub start: Day,
    pub end: Day,
}

/// An absence may not end before it starts.
pub fn validate_abmeldung_params(params: &AbmeldungParams) -> (r: Result<(), ValidationError>)
    ensures
        match r {
            Ok(()) => params.start.days_from_ce <= params.end.days_from_ce,
            Err(e) => params.start.days_from_ce > params.end.days_from_ce && e.code@ == "abmeldung_params"@
                && e.message@ == "start must be before end"@,
        },
{
    check_day_range(params.start, params.end, "abmeldung_params")
}

} // verus!
