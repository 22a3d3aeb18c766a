//! The input checks that the request parameters undergo before a handler
//! runs: lengths of texts, and ranges whose start must not lie after
//! their end.
use vstd::prelude::*;
use vstd::string::StringExecFns;

use crate::instant::{spec_before, Day, Instant};

verus! {

/// The texts of a list of strings.
pub open spec fn texts(v: Seq<String>) -> Seq<Seq<char>> {
    v.map_values(|s: String| s@)
}

/// The check `length(min = 1)`: at least one character.
pub open spec fn long_enough(s: Seq<char>) -> bool {
    s.len() >= 1
}

/// An optional text passes `length(min = 1)`: it is missing or non-empty.
pub open spec fn given_non_empty(value: Option<String>) -> bool {
    match value {
        Some(v) => v@.len() >= 1,
        None => true,
    }
}

/// Notes `field` as failing where its value is empty.
pub open spec fn note_required(errors: Seq<Seq<char>>, field: Seq<char>, value: Seq<char>) -> Seq<Seq<char>> {
    if long_enough(value) {
        errors
    } else {
        errors.push(field)
    }
}

/// Notes `field` as failing where it is given and empty; a missing value
/// passes.
pub open spec fn note_optional(errors: Seq<Seq<char>>, field: Seq<char>, value: Option<String>) -> Seq<Seq<char>> {
    match value {
        Some(v) => note_required(errors, field, v@),
        None => errors,
    }
}

/// Checks `length(min = 1)` on a required text.
pub fn require_length(errors: &mut Vec<String>, field: &str, value: &str)
    ensures
        texts(final(errors)@) == note_required(texts(old(errors)@), field@, value@),
{
    if value.unicode_len() < 1 {
        let ghost before = errors@;
        errors.push(String::from_str(field));
        assert(texts(errors@) =~= texts(before).push(field@));
    }
}

/// Checks `length(min = 1)` on an optional text.
pub fn require_optional_length(errors: &mut Vec<String>, field: &str, value: &Option<String>)
    ensures
        texts(final(errors)@) == note_optional(texts(old(errors)@), field@, *value),
{
    if let Some(v) = value {
        require_length(errors, field, v.as_str());
    }
}

/// The outcome of the checks: passed where no field failed, else the
/// failing fields in the order checked.
pub fn outcome(errors: Vec<String>) -> (r: Result<(), Vec<String>>)
    ensures
        match r {
            Ok(()) => errors@.len() == 0,
            Err(v) => v == errors && errors@.len() > 0,
        },
{
    if errors.len() == 0 {
        Ok(())
    } else {
        Err(errors)
    }
}

/// A failed check of a whole parameter set: its code and message.
#[derive(Debug)]
pub struct ValidationError {
    pub code: String,
    pub message: String,
}

/// Rejects a range of points in time whose start lies after its end.
pub fn check_instant_range(start: Instant, end: Instant, code: &str) -> (r: Result<(), ValidationError>)
    ensures
        match r {
            Ok(()) => !spec_before(end, start),
            Err(e) => spec_before(end, start) && e.code@ == code@ && e.message@ == "start must be before end"@,
        },
{
    if end.is_before(&start) {
        Err(ValidationError { code: String::from_str(code), message: String::from_str("start must be before end") })
    } else {
        Ok(())
    }
}

/// Rejects a range of days whose start lies after its end.
pub fn check_day_range(start: Day, end: Day, code: &str) -> (r: Result<(), ValidationError>)
    ensures
        match r {
            Ok(()) => start.days_from_ce <= end.days_from_ce,
            Err(e) => start.days_from_ce > end.days_from_ce && e.code@ == code@
                && e.message@ == "start must be before end"@,
        },
{
    if start.days_from_ce > end.days_from_ce {
        Err(ValidationError { code: String::from_str(code), message: String::from_str("start must be before end") })
    } else {
        Ok(())
    }
}

} // verus!
