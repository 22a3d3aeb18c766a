//! Roles under the older `/roles/` routes.
use vstd::prelude::*;

use crate::web::validation::{outcome, require_length, texts};

verus! {

/// The body of `PUT` and `DELETE /roles/`.
#[derive(Debug)]
pub struct RoleParams {
    pub name: String,
}

impl RoleParams {
    /// The name is non-empty.
    pub fn validate(&self) -> (r: Result<(), Vec<String>>)
        ensures
            match r {
                Ok(()) => self.name@.len() >= 1,
                Err(v) => self.name@.len() == 0 && texts(v@) == seq!["name"@],
            },
    {
        let mut errors: Vec<String> = Vec::new();
        require_length(&mut errors, "name", self.name.as_str());
        assert(texts(errors@).len() == errors@.len());
        outcome(errors)
    }
}

} // verus!
