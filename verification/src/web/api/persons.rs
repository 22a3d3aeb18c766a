//! Persons under `/api/persons`: what is shown to whom, and the checks of
//! the request bodies.
use vstd::prelude::*;

use crate::instant::Day;
use crate::web::auth::capability::{
    lemma_admin_has_every_capability, spec_allows, spec_has_capability, Capability, CapabilitySet,
};
use crate::web::auth::User;
use crate::web::validation::{
    given_non_empty,
    check_day_range, note_optional, note_required, outcome, require_length,
    require_optional_length, texts, ValidationError,
};

verus! {

/// A person as stored.
#[derive(Debug)]
pub struct Person {
    pub id: u128,
    pub first_name: String,
    pub last_name: String,
    pub user_name: String,
    pub matrix_id: Option<String>,
}

/// A person as the API hands it out.
#[derive(Debug)]
pub struct PublicPerson {
    pub id: u128,
    pub first_name: String,
    pub last_name: String,
    pub user_name: Option<String>,
    pub matrix_id: Option<String>,
}

/// What anyone may see of a person: id and name.
pub open spec fn spec_public(p: Person) -> PublicPerson {
    PublicPerson { id: p.id, first_name: p.first_name, last_name: p.last_name, user_name: None, matrix_id: None }
}

/// What a requester who may manage persons sees of a person: also user
/// name and Matrix id.
pub open spec fn spec_private(p: Person) -> PublicPerson {
    PublicPerson {
        id: p.id,
        first_name: p.first_name,
        last_name: p.last_name,
        user_name: Some(p.user_name),
        matrix_id: p.matrix_id,
    }
}

/// Whether the requester sees the extended info of persons: only a user who
/// may manage persons does.
pub open spec fn spec_sees_extended(requester: Option<&User>, caps: Seq<(Seq<char>, Capability)>) -> bool {
    requester matches Some(u) && spec_has_capability(caps, u.group_names(), Capability::ManagePersons)
}

/// What a requester sees of a person, by whether it sees extended info.
pub open spec fn spec_visible(extended: bool, p: Person) -> PublicPerson {
    if extended {
        spec_private(p)
    } else {
        spec_public(p)
    }
}

impl PublicPerson {
    /// The person as anyone sees it.
    pub fn public_from_person(person: Person) -> (r: PublicPerson)
        ensures
            r == spec_public(person),
    {
        PublicPerson {
            id: person.id,
            first_name: person.first_name,
            last_name: person.last_name,
            user_name: None,
            matrix_id: None,
        }
    }

    /// The person as one who may manage persons sees it.
    pub fn private_from_person(person: Person) -> (r: PublicPerson)
        ensures
            r == spec_private(person),
    {
        PublicPerson {
            id: person.id,
            first_name: person.first_name,
            last_name: person.last_name,
            user_name: Some(person.user_name),
            matrix_id: person.matrix_id,
        }
    }
}

/// A requester who may manage persons, an admin among them, sees a
/// person's user name and Matrix id.
pub proof fn lemma_managers_see_extended(user: &User, caps: Seq<(Seq<char>, Capability)>, p: Person)
    requires
        spec_has_capability(caps, user.group_names(), Capability::ManagePersons),
    ensures
        spec_visible(spec_sees_extended(Some(user), caps), p).user_name == Some(p.user_name),
        spec_visible(spec_sees_extended(Some(user), caps), p).matrix_id == p.matrix_id,
{
}

/// An admin sees a person's user name and Matrix id.
pub proof fn lemma_admins_see_extended(user: &User, caps: Seq<(Seq<char>, Capability)>, p: Person)
    requires
        spec_allows(caps, user.group_names(), Capability::Admin),
    ensures
        spec_visible(spec_sees_extended(Some(user), caps), p).user_name == Some(p.user_name),
        spec_visible(spec_sees_extended(Some(user), caps), p).matrix_id == p.matrix_id,
{
    lemma_admin_has_every_capability(caps, user.group_names(), Capability::ManagePersons);
    lemma_managers_see_extended(user, caps, p);
}

/// Every other requester, and an anonymous one, sees only a person's id
/// and name.
pub proof fn lemma_others_see_names_only(requester: Option<&User>, caps: Seq<(Seq<char>, Capability)>, p: Person)
    requires
        match requester {
            Some(u) => !spec_has_capability(caps, u.group_names(), Capability::ManagePersons),
            None => true,
        },
    ensures
        spec_visible(spec_sees_extended(requester, caps), p).user_name is None,
        spec_visible(spec_sees_extended(requester, caps), p).matrix_id is None,
        spec_visible(spec_sees_extended(requester, caps), p).id == p.id,
        spec_visible(spec_sees_extended(requester, caps), p).first_name == p.first_name,
        spec_visible(spec_sees_extended(requester, caps), p).last_name == p.last_name,
{
}

fn sees_extended(requester: Option<&User>, caps: &CapabilitySet) -> (r: bool)
    ensures
        r == spec_sees_extended(requester, caps@),
{
    match requester {
        Some(u) => u.has_capability(caps, Capability::ManagePersons),
        None => false,
    }
}

/// The persons as the requester sees them, in the order stored.
pub fn visible_persons(requester: Option<&User>, caps: &CapabilitySet, persons: Vec<Person>) -> (r: Vec<PublicPerson>)
    ensures
        r@.len() == persons@.len(),
        forall|k: int| 0 <= k < r@.len() ==> #[trigger] r@[k] == spec_visible(spec_sees_extended(requester, caps@), persons@[k]),
{
    let extended = sees_extended(requester, caps);
    let ghost all = persons@;
    let mut out: Vec<PublicPerson> = Vec::new();
    for p in it: persons
        invariant
            it.seq() == all,
            out@.len() == it.index(),
            extended == spec_sees_extended(requester, caps@),
            forall|k: int| 0 <= k < out@.len() ==> #[trigger] out@[k] == spec_visible(extended, all[k]),
    {
        let v = if extended {
            PublicPerson::private_from_person(p)
        } else {
            PublicPerson::public_from_person(p)
        };
        out.push(v);
    }
    out
}

/// The person, if found, as the requester sees it.
pub fn visible_person(requester: Option<&User>, caps: &CapabilitySet, person: Option<Person>) -> (r: Option<PublicPerson>)
    ensures
        match person {
            Some(p) => r == Some(spec_visible(spec_sees_extended(requester, caps@), p)),
            None => r is None,
        },
{
    match person {
        Some(p) => Some(if sees_extended(requester, caps) {
            PublicPerson::private_from_person(p)
        } else {
            PublicPerson::public_from_person(p)
        }),
        None => None,
    }
}

/// The body of `PUT /api/persons`.
#[derive(Debug)]
pub struct CreatePersonParams {
    pub first_name: String,
    pub last_name: String,
    pub user_name: String,
    pub matrix_id: Option<String>,
}

impl CreatePersonParams {
    /// The fields that fail `length(min = 1)`, in declaration order.
    pub open spec fn spec_errors(&self) -> Seq<Seq<char>> {
        note_optional(
            note_required(
                note_required(
                    note_required(Seq::empty(), "first_name"@, self.first_name@),
                    "last_name"@,
                    self.last_name@,
                ),
                "user_name"@,
                self.user_name@,
            ),
            "matrix_id"@,
            self.matrix_id,
        )
    }

    /// Every text is non-empty, the Matrix id where it is given.
    pub fn validate(&self) -> (r: Result<(), Vec<String>>)
        ensures
            match r {
                Ok(()) => self.spec_errors().len() == 0,
                Err(v) => texts(v@) == self.spec_errors() && v@.len() > 0,
            },
            (r is Ok) <==> (self.first_name@.len() >= 1 && self.last_name@.len() >= 1 && self.user_name@.len() >= 1 && given_non_empty(self.matrix_id)),
    {
        let mut errors: Vec<String> = Vec::new();
        require_length(&mut errors, "first_name", self.first_name.as_str());
        require_length(&mut errors, "last_name", self.last_name.as_str());
        require_length(&mut errors, "user_name", self.user_name.as_str());
        require_optional_length(&mut errors, "matrix_id", &self.matrix_id);
        assert(texts(errors@).len() == errors@.len());
        outcome(errors)
    }
}

/// The body of `PATCH /api/persons/{id}`.
#[derive(Debug)]
pub struct UpdatePersonParams {
    pub first_name: Option<String>,
    pub last_name: Option<String>,
    pub user_name: Option<String>,
    pub matrix_id: Option<String>,
}

impl UpdatePersonParams {
    /// The given fields that are empty, in declaration order.
    pub open spec fn spec_errors(&self) -> Seq<Seq<char>> {
        note_optional(
            note_optional(
                note_optional(
                    note_optional(Seq::empty(), "first_name"@, self.first_name),
                    "last_name"@,
                    self.last_name,
                ),
                "user_name"@,
                self.user_name,
            ),
            "matrix_id"@,
            self.matrix_id,
        )
    }

    /// Every given text is non-empty.
    pub fn validate(&self) -> (r: Result<(), Vec<String>>)
        ensures
            match r {
                Ok(()) => self.spec_errors().len() == 0,
                Err(v) => texts(v@) == self.spec_errors() && v@.len() > 0,
            },
            (r is Ok) <==> (given_non_empty(self.first_name) && given_non_empty(self.last_name) && given_non_empty(self.user_name) && given_non_empty(self.matrix_id)),
    {
        let mut errors: Vec<String> = Vec::new();
        require_optional_length(&mut errors, "first_name", &self.first_name);
        require_optional_length(&mut errors, "last_name", &self.last_name);
        require_optional_length(&mut errors, "user_name", &self.user_name);
        require_optional_length(&mut errors, "matrix_id", &self.matrix_id);
        assert(texts(errors@).len() == errors@.len());
        outcome(errors)
    }
}

/// The query of `GET /api/persons/by-role`.
#[derive(Debug)]
pub struct PersonsByRoleParams {
    pub role: String,
}

impl PersonsByRoleParams {
    /// The role is non-empty.
    pub fn validate(&self) -> (r: Result<(), Vec<String>>)
        ensures
            match r {
                Ok(()) => self.role@.len() >= 1,
                Err(v) => self.role@.len() == 0 && texts(v@) == seq!["role"@],
            },
    {
        let mut errors: Vec<String> = Vec::new();
        require_length(&mut errors, "role", self.role.as_str());
        assert(texts(errors@).len() == errors@.len());
        outcome(errors)
    }
}

/// The body of the role routes under `/api/persons/{id}/roles`.
#[derive(Debug)]
pub struct RoleParams {
    pub role: String,
}

impl RoleParams {
    /// The role is non-empty.
    pub fn validate(&self) -> (r: Result<(), Vec<String>>)
        ensures
            match r {
                Ok(()) => self.role@.len() >= 1,
                Err(v) => self.role@.len() == 0 && texts(v@) == seq!["role"@],
            },
    {
        let mut errors: Vec<String> = Vec::new();
        require_length(&mut errors, "role", self.role.as_str());
        assert(texts(errors@).len() == errors@.len());
        outcome(errors)
    }
}

/// The body of the routes under `/api/persons/{id}/abmeldungen`: the days
/// of an absence.
#[derive(Debug)]
pub struct AbmeldungParams {
    pub start: Day,
    pub end: Day,
}

/// An absence may not end before it starts.
pub fn validate_abmeldung_params(params: &AbmeldungParams) -> (r: Result<(), ValidationError>)
    ensures
        match r {
            Ok(()) => params.start.days_from_ce <= params.end.days_from_ce,
            Err(e) => params.start.days_from_ce > params.end.days_from_ce && e.code@ == "abmeldung_params"@
                && e.message@ == "start must be before end"@,
        },
{
    check_day_range(params.start, params.end, "abmeldung_params")
}

} // verus!
