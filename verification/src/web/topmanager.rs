//! The TOP manager routes: their answers, and the TOP that a new Antrag
//! receives.
use vstd::prelude::*;
use vstd::string::StringExecFns;

use crate::instant::Instant;
use super::{Body, Reply};

pub mod antrag;
pub mod sitzungen;

verus! {

/// The body of `PUT /antrag`.
#[derive(Debug)]
pub struct CreateAntragParams {
    pub titel: String,
    pub antragstext: String,
    /// Named `begründung` in the request.
    pub begruendung: String,
}

/// The Antrag to delete.
#[derive(Debug)]
pub struct DeleteAntragParams {
    pub id: u128,
}

/// The body that creates a TOP at `position`; `inhalt` is its JSON content.
#[derive(Debug)]
pub struct CreateTopParams {
    pub titel: String,
    pub inhalt: Option<serde_json::Value>,
    pub position: i64,
}

/// A Sitzung as the TOP manager lists it; its date and time are local and
/// held as if they were UTC.
#[derive(Debug)]
pub struct Sitzung {
    pub id: u128,
    pub datum: Instant,
    pub name: String,
}

/// The answer of a TOP manager route; the values are already serialised.
pub enum RestStatus<V, E> {
    /// 200 with the value.
    Success(V),
    Created(V),
    NotFound,
    Error(E),
}

impl<V, E> RestStatus<V, E> {
    /// A created value, or the error of the operation or of serialising
    /// its result (`serialised` is the operation's outcome with its value
    /// serialised).
    pub fn created_from_result(serialised: Result<Result<V, E>, E>) -> (r: Self)
        ensures
            match serialised {
                Ok(Ok(v)) => r == RestStatus::<V, E>::Created(v),
                Ok(Err(e)) => r == RestStatus::<V, E>::Error(e),
                Err(e) => r == RestStatus::<V, E>::Error(e),
            },
    {
        match serialised {
            Ok(Ok(v)) => RestStatus::Created(v),
            Ok(Err(e)) => RestStatus::Error(e),
            Err(e) => RestStatus::Error(e),
        }
    }

    /// A found value, or the error of the operation or of serialising its
    /// result.
    pub fn ok_from_result(serialised: Result<Result<V, E>, E>) -> (r: Self)
        ensures
            match serialised {
                Ok(Ok(v)) => r == RestStatus::<V, E>::Success(v),
                Ok(Err(e)) => r == RestStatus::<V, E>::Error(e),
                Err(e) => r == RestStatus::<V, E>::Error(e),
            },
    {
        match serialised {
            Ok(Ok(v)) => RestStatus::Success(v),
            Ok(Err(e)) => RestStatus::Error(e),
            Err(e) => RestStatus::Error(e),
        }
    }

    /// Values go out as JSON with 200 or 201; a missing resource is `404
    /// Not Found`; an error is `500 Internal Server Error`, its details
    /// only logged.
    pub fn respond_to(self) -> (r: Reply<V>)
        ensures
            match self {
                RestStatus::Success(v) => r.status == 200 && r.body == Body::Json(v),
                RestStatus::Created(v) => r.status == 201 && r.body == Body::Json(v),
                RestStatus::NotFound => r.status == 404 && (r.body matches Body::Text(m) && m@ == "Not Found"@),
                RestStatus::Error(_) => r.status == 500 && (r.body matches Body::Text(m)
                    && m@ == "Internal Server Error"@),
            },
    {
        match self {
            RestStatus::Success(v) => Reply { status: 200, body: Body::Json(v) },
            RestStatus::Created(v) => Reply { status: 201, body: Body::Json(v) },
            RestStatus::NotFound => Reply { status: 404, body: Body::Text(String::from_str("Not Found")) },
            RestStatus::Error(_) => Reply { status: 500, body: Body::Text(String::from_str("Internal Server Error")) },
        }
    }
}

/// The TOP that a new Antrag receives: one titled like the Antrag in the
/// next Sitzung, where there is one.
pub fn top_for_new_antrag(titel: &str, next_sitzung: Option<u128>) -> (r: Option<(String, u128)>)
    ensures
        match next_sitzung {
            Some(s) => r matches Some(t) && t.0@ == titel@ && t.1 == s,
            None => r is None,
        },
{
    match next_sitzung {
        Some(s) => Some((String::from_str(titel), s)),
        None => None,
    }
}

} // verus!
