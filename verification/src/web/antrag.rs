//! Anträge under the older `/anträge/` routes: the checks of the request
//! bodies, which name the applicants.
use vstd::prelude::*;

use crate::web::validation::{
    given_non_empty, note_optional, note_required, outcome, require_length, require_optional_length, texts,
};

verus! {

/// The body of `POST /anträge/`.
#[derive(Debug)]
pub struct CreateAntragParams {
    pub antragssteller: Vec<u128>,
    pub begruendung: String,
    pub antragstext: String,
    pub titel: String,
}

impl CreateAntragParams {
    /// The texts that are empty, in declaration order.
    pub open spec fn spec_errors(&self) -> Seq<Seq<char>> {
        note_required(
            note_required(note_required(Seq::empty(), "begründung"@, self.begruendung@), "antragstext"@, self.antragstext@),
            "titel"@,
            self.titel@,
        )
    }

    /// Reason, text and title are non-empty.
    pub fn validate(&self) -> (r: Result<(), Vec<String>>)
        ensures
            match r {
                Ok(()) => self.spec_errors().len() == 0,
                Err(v) => texts(v@) == self.spec_errors() && v@.len() > 0,
            },
            (r is Ok) <==> (self.begruendung@.len() >= 1 && self.antragstext@.len() >= 1 && self.titel@.len() >= 1),
    {
        let mut errors: Vec<String> = Vec::new();
        require_length(&mut errors, "begründung", self.begruendung.as_str());
        require_length(&mut errors, "antragstext", self.antragstext.as_str());
        require_length(&mut errors, "titel", self.titel.as_str());
        assert(texts(errors@).len() == errors@.len());
        outcome(errors)
    }
}

/// The body of `PATCH /anträge/{id}/`.
#[derive(Debug)]
pub struct UpdateAntragParams {
    pub antragssteller: Option<Vec<u128>>,
    pub begruendung: Option<String>,
    pub antragstext: Option<String>,
    pub titel: Option<String>,
}

impl UpdateAntragParams {
    /// The given texts that are empty, in declaration order.
    pub open spec fn spec_errors(&self) -> Seq<Seq<char>> {
        note_optional(
            note_optional(note_optional(Seq::empty(), "begründung"@, self.begruendung), "antragstext"@, self.antragstext),
            "titel"@,
            self.titel,
        )
    }

    /// Every given text is non-empty.
    pub fn validate(&self) -> (r: Result<(), Vec<String>>)
        ensures
            match r {
                Ok(()) => self.spec_errors().len() == 0,
                Err(v) => texts(v@) == self.spec_errors() && v@.len() > 0,
            },
            (r is Ok) <==> (given_non_empty(self.begruendung) && given_non_empty(self.antragstext) && given_non_empty(self.titel)),
    {
        let mut errors: Vec<String> = Vec::new();
        require_optional_length(&mut errors, "begründung", &self.begruendung);
        require_optional_length(&mut errors, "antragstext", &self.antragstext);
        require_optional_length(&mut errors, "titel", &self.titel);
        assert(texts(errors@).len() == errors@.len());
        outcome(errors)
    }
}

} // verus!
