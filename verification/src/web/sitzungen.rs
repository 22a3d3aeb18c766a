//! Sitzungen under the older `/sitzungen/` routes: the bodies and their
//! checks, and the checked range.
use vstd::prelude::*;

use crate::instant::{spec_before, Instant};
use crate::web::validation::{
    given_non_empty,
    check_instant_range, note_optional, note_required, outcome, require_length, require_optional_length,
    texts, ValidationError,
};

verus! {

/// The JSON content of a TOP, carried through unread.
#[verifier::external_type_specification]
#[verifier::external_body]
pub struct ExJsonValue(serde_json::Value);

/// The body of `PUT /sitzungen/`; `K` is the kind of Sitzung.
#[derive(Debug)]
pub struct CreateSitzungParams<K> {
    pub datetime: Instant,
    pub location: String,
    pub kind: K,
}

impl<K> CreateSitzungParams<K> {
    /// The fields that fail `length(min = 1)`.
    pub open spec fn spec_errors(&self) -> Seq<Seq<char>> {
        note_required(Seq::empty(), "location"@, self.location@)
    }

    /// The location is non-empty.
    pub fn validate(&self) -> (r: Result<(), Vec<String>>)
        ensures
            match r {
                Ok(()) => self.spec_errors().len() == 0,
                Err(v) => texts(v@) == self.spec_errors() && v@.len() > 0,
            },
            (r is Ok) <==> (self.location@.len() >= 1),
    {
        let mut errors: Vec<String> = Vec::new();
        require_length(&mut errors, "location", self.location.as_str());
        assert(texts(errors@).len() == errors@.len());
        outcome(errors)
    }
}

/// The body of `PUT /sitzungen/{id}/tops/`; `K` is the kind of TOP.
#[derive(Debug)]
pub struct CreateTopParams<K> {
    pub name: String,
    pub kind: K,
    pub inhalt: Option<serde_json::Value>,
}

impl<K> CreateTopParams<K> {
    /// The fields that fail `length(min = 1)`.
    pub open spec fn spec_errors(&self) -> Seq<Seq<char>> {
        note_required(Seq::empty(), "name"@, self.name@)
    }

    /// The name is non-empty.
    pub fn validate(&self) -> (r: Result<(), Vec<String>>)
        ensures
            match r {
                Ok(()) => self.spec_errors().len() == 0,
                Err(v) => texts(v@) == self.spec_errors() && v@.len() > 0,
            },
            (r is Ok) <==> (self.name@.len() >= 1),
    {
        let mut errors: Vec<String> = Vec::new();
        require_length(&mut errors, "name", self.name.as_str());
        assert(texts(errors@).len() == errors@.len());
        outcome(errors)
    }
}

/// The body of `PATCH /sitzungen/{id}`; `K` is the kind of Sitzung.
#[derive(Debug)]
pub struct UpdateSitzungParams<K> {
    pub datetime: Option<Instant>,
    pub location: Option<String>,
    pub kind: Option<K>,
}

impl<K> UpdateSitzungParams<K> {
    /// The given fields that fail `length(min = 1)`.
    pub open spec fn spec_errors(&self) -> Seq<Seq<char>> {
        note_optional(Seq::empty(), "location"@, self.location)
    }

    /// The location is non-empty where it is given.
    pub fn validate(&self) -> (r: Result<(), Vec<String>>)
        ensures
            match r {
                Ok(()) => self.spec_errors().len() == 0,
                Err(v) => texts(v@) == self.spec_errors() && v@.len() > 0,
            },
            (r is Ok) <==> (given_non_empty(self.location)),
    {
        let mut errors: Vec<String> = Vec::new();
        require_optional_length(&mut errors, "location", &self.location);
        assert(texts(errors@).len() == errors@.len());
        outcome(errors)
    }
}

/// The body of `PATCH /sitzungen/{id}/tops/{top}`; `K` is the kind of TOP.
#[derive(Debug)]
pub struct UpdateTopParams<K> {
    pub name: Option<String>,
    pub kind: Option<K>,
    pub inhalt: Option<serde_json::Value>,
    pub weight: Option<i64>,
}

impl<K> UpdateTopParams<K> {
    /// The given fields that fail `length(min = 1)`.
    pub open spec fn spec_errors(&self) -> Seq<Seq<char>> {
        note_optional(Seq::empty(), "name"@, self.name)
    }

    /// The name is non-empty where it is given.
    pub fn validate(&self) -> (r: Result<(), Vec<String>>)
        ensures
            match r {
                Ok(()) => self.spec_errors().len() == 0,
                Err(v) => texts(v@) == self.spec_errors() && v@.len() > 0,
            },
            (r is Ok) <==> (given_non_empty(self.name)),
    {
        let mut errors: Vec<String> = Vec::new();
        require_optional_length(&mut errors, "name", &self.name);
        assert(texts(errors@).len() == errors@.len());
        outcome(errors)
    }
}

/// The query of `GET /sitzungen/between/`.
#[derive(Debug)]
pub struct SitzungBetweenParams {
    pub start: Instant,
    pub end: Instant,
}

/// The range may not end before it starts.
pub fn validate_sitzung_between_params(params: &SitzungBetweenParams) -> (r: Result<(), ValidationError>)
    ensures
        match r {
            Ok(()) => !spec_before(params.end, params.start),
            Err(e) => spec_before(params.end, params.start) && e.code@ == "sitzung_between_params"@
                && e.message@ == "start must be before end"@,
        },
{
    check_instant_range(params.start, params.end, "sitzung_between_params")
}

/// The query of `GET /sitzungen/first-after/`.
#[derive(Debug)]
pub struct FirstSitzungAfterParams {
    pub timestamp: Instant,
}

/// The body of the routes under `/sitzungen/{id}/tops/{top}/assoc`.
#[derive(Debug)]
pub struct AssocAntragParams {
    pub antrag_id: u128,
}

} // verus!
