//! Sitzungen under `/api/sitzungen`: the checks of the query ranges, and
//! the data handed to a template.
use vstd::prelude::*;

use crate::instant::{spec_before, Instant};
use crate::web::api::persons::Person;
use crate::web::calendar::{events_view, CalendarEvent};
use crate::web::validation::{
    given_non_empty,
    check_instant_range, note_optional, note_required, outcome, require_length, require_optional_length,
    texts, ValidationError,
};
use crate::web::Error;

verus! {

/// The query of `GET /api/sitzungen/between`.
#[derive(Debug)]
pub struct SitzungBetweenParams {
    pub start: Instant,
    pub end: Instant,
}

/// The range may not end before it starts.
pub fn validate_sitzung_between_params(params: &SitzungBetweenParams) -> (r: Result<(), ValidationError>)
    ensures
        match r {
            Ok(()) => !spec_before(params.end, params.start),
            Err(e) => spec_before(params.end, params.start) && e.code@ == "sitzung_between_params"@
                && e.message@ == "start must be before end"@,
        },
{
    check_instant_range(params.start, params.end, "sitzung_between_params")
}

/// The body of `POST /api/sitzungen`; `K` is the kind of Sitzung.
#[derive(Debug)]
pub struct CreateSitzungParams<K> {
    pub datetime: Instant,
    pub location: String,
    pub kind: K,
    pub antragsfrist: Instant,
    pub legislative_period: u128,
}

impl<K> CreateSitzungParams<K> {
    /// The fields that fail `length(min = 1)`.
    pub open spec fn spec_errors(&self) -> Seq<Seq<char>> {
        note_required(Seq::empty(), "location"@, self.location@)
    }

    /// The location is non-empty.
    pub fn validate(&self) -> (r: Result<(), Vec<String>>)
        ensures
            match r {
                Ok(()) => self.spec_errors().len() == 0,
                Err(v) => texts(v@) == self.spec_errors() && v@.len() > 0,
            },
            (r is Ok) <==> (self.location@.len() >= 1),
    {
        let mut errors: Vec<String> = Vec::new();
        require_length(&mut errors, "location", self.location.as_str());
        assert(texts(errors@).len() == errors@.len());
        outcome(errors)
    }
}

/// The body of `POST /api/sitzungen/{id}/tops`; `K` is the kind of TOP.
#[derive(Debug)]
pub struct CreateTopParams<K> {
    pub name: String,
    pub kind: K,
    pub inhalt: String,
}

impl<K> CreateTopParams<K> {
    /// The fields that fail `length(min = 1)`.
    pub open spec fn spec_errors(&self) -> Seq<Seq<char>> {
        note_required(Seq::empty(), "name"@, self.name@)
    }

    /// The name is non-empty.
    pub fn validate(&self) -> (r: Result<(), Vec<String>>)
        ensures
            match r {
                Ok(()) => self.spec_errors().len() == 0,
                Err(v) => texts(v@) == self.spec_errors() && v@.len() > 0,
            },
            (r is Ok) <==> (self.name@.len() >= 1),
    {
        let mut errors: Vec<String> = Vec::new();
        require_length(&mut errors, "name", self.name.as_str());
        assert(texts(errors@).len() == errors@.len());
        outcome(errors)
    }
}

/// The body of `PATCH /api/sitzungen/{id}`; `K` is the kind of Sitzung.
#[derive(Debug)]
pub struct UpdateSitzungParams<K> {
    pub datetime: Option<Instant>,
    pub location: Option<String>,
    pub kind: Option<K>,
    pub antragsfrist: Option<Instant>,
    pub legislative_period: Option<u128>,
}

impl<K> UpdateSitzungParams<K> {
    /// The given fields that fail `length(min = 1)`.
    pub open spec fn spec_errors(&self) -> Seq<Seq<char>> {
        note_optional(Seq::empty(), "location"@, self.location)
    }

    /// The location is non-empty where it is given.
    pub fn validate(&self) -> (r: Result<(), Vec<String>>)
        ensures
            match r {
                Ok(()) => self.spec_errors().len() == 0,
                Err(v) => texts(v@) == self.spec_errors() && v@.len() > 0,
            },
            (r is Ok) <==> (given_non_empty(self.location)),
    {
        let mut errors: Vec<String> = Vec::new();
        require_optional_length(&mut errors, "location", &self.location);
        assert(texts(errors@).len() == errors@.len());
        outcome(errors)
    }
}

/// The body of `PATCH /api/sitzungen/{id}/tops/{top}`; `K` is the kind of
/// TOP.
#[derive(Debug)]
pub struct UpdateTopParams<K> {
    pub name: Option<String>,
    pub kind: Option<K>,
    pub inhalt: Option<String>,
    pub weight: Option<i64>,
}

impl<K> UpdateTopParams<K> {
    /// The given fields that fail `length(min = 1)`.
    pub open spec fn spec_errors(&self) -> Seq<Seq<char>> {
        note_optional(Seq::empty(), "name"@, self.name)
    }

    /// The name is non-empty where it is given.
    pub fn validate(&self) -> (r: Result<(), Vec<String>>)
        ensures
            match r {
                Ok(()) => self.spec_errors().len() == 0,
                Err(v) => texts(v@) == self.spec_errors() && v@.len() > 0,
            },
            (r is Ok) <==> (given_non_empty(self.name)),
    {
        let mut errors: Vec<String> = Vec::new();
        require_optional_length(&mut errors, "name", &self.name);
        assert(texts(errors@).len() == errors@.len());
        outcome(errors)
    }
}

/// The query of `GET /api/sitzungen/after`.
#[derive(Debug)]
pub struct SitzungenAfterParams {
    pub timestamp: Instant,
    pub limit: Option<i64>,
}

/// The body of the routes under `/api/sitzungen/{id}/tops/{top}/assoc`.
#[derive(Debug)]
pub struct AssocAntragParams {
    pub antrag_id: u128,
}

/// A calendar as a template sees it.
#[derive(Debug)]
pub struct TemplateCalendar {
    pub name: String,
    pub events: Vec<CalendarEvent>,
}

/// What a template of a Sitzung is rendered with: the Sitzung with its
/// TOPs, all persons, and all calendars.
#[derive(Debug)]
pub struct TemplateRenderStruct<S> {
    pub sitzung: S,
    pub persons: Vec<Person>,
    pub calendars: Vec<TemplateCalendar>,
}

/// A lookup of a calendar found its events.
pub open spec fn found_events(f: Result<Option<Vec<CalendarEvent>>, Error>) -> bool {
    f matches Ok(Some(_))
}

/// A lookup of a calendar found no calendar of that name.
pub open spec fn found_missing(f: Result<Option<Vec<CalendarEvent>>, Error>) -> bool {
    f matches Ok(None)
}

/// A lookup of a calendar failed with `e`.
pub open spec fn failed_with(f: Result<Option<Vec<CalendarEvent>>, Error>, e: Error) -> bool {
    f == Err::<Option<Vec<CalendarEvent>>, Error>(e)
}

/// Pairs the calendars' names with the outcomes of looking them up, in
/// order, as a template needs them. The first lookup that did not find
/// events decides: a failed one passes its error on, a calendar that is
/// not there makes the answer 404 (`Ok(None)`).
pub fn template_calendars(
    names: Vec<String>,
    found: Vec<Result<Option<Vec<CalendarEvent>>, Error>>,
) -> (r: Result<Option<Vec<TemplateCalendar>>, Error>)
    requires
        names@.len() == found@.len(),
    ensures
        match r {
            Ok(Some(v)) => v@.len() == names@.len() && forall|i: int| 0 <= i < v@.len() ==> {
                &&& #[trigger] v@[i].name@ == names@[i]@
                &&& found@[i] matches Ok(Some(ev)) && events_view(v@[i].events@) == events_view(ev@)
            },
            Ok(None) => exists|k: int| 0 <= k < found@.len() && #[trigger] found_missing(found@[k])
                && forall|j: int| 0 <= j < k ==> found_events(#[trigger] found@[j]),
            Err(e) => exists|k: int| 0 <= k < found@.len() && #[trigger] failed_with(found@[k], e)
                && forall|j: int| 0 <= j < k ==> found_events(#[trigger] found@[j]),
        },
{
    let ghost all = found@;
    let mut rest = found;
    let mut out: Vec<TemplateCalendar> = Vec::new();
    let n = names.len();
    let mut i: usize = 0;
    while i < n
        invariant
            n == names@.len(),
            n == all.len(),
            all == found@,
            i <= n,
            rest@ == all.subrange(i as int, n as int),
            out@.len() == i,
            forall|j: int| 0 <= j < i ==> found_events(#[trigger] all[j]),
            forall|j: int| 0 <= j < i ==> {
                &&& #[trigger] out@[j].name@ == names@[j]@
                &&& all[j] matches Ok(Some(ev)) && events_view(out@[j].events@) == events_view(ev@)
            },
        decreases n - i,
    {
        let f = rest.remove(0);
        assert(f == all[i as int]);
        match f {
            Err(e) => {
                assert(failed_with(found@[i as int], e));
                assert(forall|j: int| 0 <= j < i ==> found_events(#[trigger] found@[j]));
                let r: Result<Option<Vec<TemplateCalendar>>, Error> = Err(e);
                assert(r matches Err(e2) && failed_with(found@[i as int], e2));
                return r;
            },
            Ok(None) => {
                assert(found_missing(all[i as int]));
                return Ok(None);
            },
            Ok(Some(events)) => {
                out.push(TemplateCalendar { name: names[i].clone(), events });
                i = i + 1;
                assert(rest@ =~= all.subrange(i as int, n as int));
            },
        }
    }
    Ok(Some(out))
}

} // verus!
