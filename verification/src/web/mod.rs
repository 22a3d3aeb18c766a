//! The web layer: what the HTTP handlers of the server decide.
use vstd::prelude::*;
use vstd::string::StringExecFns;

pub mod abmeldungen;
pub mod abmmeldungen;
pub mod antrag;
pub mod api;
pub mod auth;
pub mod calendar;
pub mod door_state;
pub mod doorstate;
pub mod files;
pub mod persons;
pub mod roles;
pub mod session;
pub mod sitzungen;
pub mod topmanager;
pub mod validation;

verus! {

/// The errors that the web layer reports.
#[derive(Debug)]
pub enum Error {
    /// A failure described by its message.
    Message(String),
}

impl Error {
    /// The error's message.
    pub open spec fn text(self) -> Seq<char> {
        match self {
            Error::Message(m) => m@,
        }
    }
}

/// The answer of a REST handler.
pub enum RestStatus<T> {
    /// 200 with the value as JSON, or 404 where there is none.
    Success(Option<T>),
    /// 201 with the value as JSON, or 404 where there is none.
    Created(Option<T>),
    /// 400 with the message.
    BadRequest(String),
    /// The given status code with the message.
    Status(u16, String),
    /// 404.
    NotFound,
}

/// The body of an answer.
pub enum Body<T> {
    /// The value, serialised as JSON.
    Json(T),
    /// Plain text.
    Text(String),
}

/// An answer: status code and body.
pub struct Reply<T> {
    pub status: u16,
    pub body: Body<T>,
}

/// The status code that a handler's answer is sent with.
pub open spec fn spec_status<T>(s: RestStatus<T>) -> u16 {
    match s {
        RestStatus::Success(Some(_)) => 200,
        RestStatus::Created(Some(_)) => 201,
        RestStatus::Success(None) | RestStatus::Created(None) | RestStatus::NotFound => 404,
        RestStatus::BadRequest(_) => 400,
        RestStatus::Status(code, _) => code,
    }
}

impl<T> RestStatus<T> {
    /// Turns the handler's answer into status code and body: values go out
    /// as JSON; a missing value is `404 Not Found`; messages go out as
    /// text.
    pub fn respond_to(self) -> (r: Reply<T>)
        ensures
            r.status == spec_status(self),
            match self {
                RestStatus::Success(Some(v)) => r.body == Body::Json(v),
                RestStatus::Created(Some(v)) => r.body == Body::Json(v),
                RestStatus::Success(None) | RestStatus::Created(None) | RestStatus::NotFound =>
                    r.body matches Body::Text(m) && m@ == "Not Found"@,
                RestStatus::BadRequest(m) => r.body == Body::<T>::Text(m),
                RestStatus::Status(_, m) => r.body == Body::<T>::Text(m),
            },
    {
        match self {
            RestStatus::Success(value) => match value {
                Some(inner) => Reply { status: 200, body: Body::Json(inner) },
                None => Reply { status: 404, body: Body::Text(String::from_str("Not Found")) },
            },
            RestStatus::Created(value) => match value {
                Some(inner) => Reply { status: 201, body: Body::Json(inner) },
                None => Reply { status: 404, body: Body::Text(String::from_str("Not Found")) },
            },
            RestStatus::BadRequest(msg) => Reply { status: 400, body: Body::Text(msg) },
            RestStatus::NotFound => Reply { status: 404, body: Body::Text(String::from_str("Not Found")) },
            RestStatus::Status(status, msg) => Reply { status, body: Body::Text(msg) },
        }
    }
}

/// Whatever a handler looked up and did not find is answered with 404:
/// a missing value, a missing created value, and `NotFound` alike.
pub proof fn lemma_missing_is_not_found<T>(s: RestStatus<T>)
    requires
        s matches RestStatus::Success(None) || s matches RestStatus::Created(None) || s is NotFound,
    ensures
        spec_status(s) == 404,
{
}

} // verus!
