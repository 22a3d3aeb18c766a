//! Templates under `/api/templates`.
use vstd::prelude::*;

verus! {

/// The body of `PATCH /api/templates/{name}`.
#[derive(Debug)]
pub struct UpdateTemplateParams {
    pub inhalt: String,
}

/// The body of `POST /api/templates`.
#[derive(Debug)]
pub struct CreateTemplateParams {
    pub name: String,
    pub inhalt: String,
}

} // verus!
