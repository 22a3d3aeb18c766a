//! Anträge under `/api/anträge`: who may change an Antrag and its
//! attachments, and the checks of uploads and request bodies.
use vstd::prelude::*;
use vstd::string::StringExecFns;

use crate::text::{push_decimal, spec_decimal};
use crate::web::validation::{
    given_non_empty, note_optional, note_required, outcome, require_length, require_optional_length, texts,
};
use crate::web::RestStatus;

verus! {

/// Whether the requester may change an Antrag.
#[derive(Clone, Copy, Debug, PartialEq, Eq, Structural)]
pub enum AntragAccess {
    Allowed,
    /// The Antrag does not exist.
    NotFound,
    /// The requester neither manages Anträge nor created this one.
    NotCreator,
}

/// Editing an Antrag or removing one of its attachments: whoever manages
/// Anträge may; anyone else must be among the Antrag's creators, and the
/// Antrag must exist.
pub fn creator_access(may_manage: bool, creators: Option<&Vec<u128>>, person_id: u128) -> (r: AntragAccess)
    ensures
        r == (if may_manage {
            AntragAccess::Allowed
        } else {
            match creators {
                None => AntragAccess::NotFound,
                Some(c) => if c@.contains(person_id) {
                    AntragAccess::Allowed
                } else {
                    AntragAccess::NotCreator
                },
            }
        }),
{
    if may_manage {
        return AntragAccess::Allowed;
    }
    match creators {
        None => AntragAccess::NotFound,
        Some(c) => {
            for i in 0..c.len()
                invariant
                    !may_manage,
                    creators == Some(c),
                    forall|k: int| 0 <= k < i ==> c@[k] != person_id,
            {
                if c[i] == person_id {
                    assert(c@[i as int] == person_id);
                    assert(c@.contains(person_id));
                    return AntragAccess::Allowed;
                }
            }
            AntragAccess::NotCreator
        },
    }
}

/// Adding an attachment: the Antrag must exist, for everyone; then the
/// same rule as for editing.
pub fn upload_access(may_manage: bool, creators: Option<&Vec<u128>>, person_id: u128) -> (r: AntragAccess)
    ensures
        r == (match creators {
            None => AntragAccess::NotFound,
            Some(c) => if may_manage || c@.contains(person_id) {
                AntragAccess::Allowed
            } else {
                AntragAccess::NotCreator
            },
        }),
{
    match creators {
        None => AntragAccess::NotFound,
        Some(_) => creator_access(may_manage, creators, person_id),
    }
}

/// The answer to a refused change: 404 for a missing Antrag, 401 for one
/// that the requester did not create; nothing where the change may go on.
pub fn access_rejection<T>(access: AntragAccess) -> (r: Option<RestStatus<T>>)
    ensures
        match access {
            AntragAccess::Allowed => r is None,
            AntragAccess::NotFound => r matches Some(RestStatus::NotFound),
            AntragAccess::NotCreator => r matches Some(RestStatus::Status(code, m))
                && code == 401 && m@ == "you are not a creator of this antrag"@,
        },
{
    match access {
        AntragAccess::Allowed => None,
        AntragAccess::NotFound => Some(RestStatus::NotFound),
        AntragAccess::NotCreator => Some(RestStatus::Status(401, String::from_str("you are not a creator of this antrag"))),
    }
}

/// The message for a file above the size limit.
pub open spec fn too_large_message(max: nat) -> Seq<char> {
    "The uploaded file is too large. Maximum size is "@ + spec_decimal(max) + " bytes."@
}

/// The form of `POST /api/anträge/{id}/attachments`, by what the route
/// reads of the uploaded file: its size in bytes and the name the client
/// gave it. The file's content stays on disk, where the upload put it.
#[derive(Debug)]
pub struct UploadAntrag {
    pub size: usize,
    pub file_name: Option<String>,
}

/// Checks an uploaded file's size: an empty file and a file above `max`
/// bytes are refused with 400 and the message given here.
pub fn check_upload_size(size: usize, max: usize) -> (r: Result<(), String>)
    ensures
        size == 0 ==> (r matches Err(m) && m@ == "The Provided file was empty"@),
        size != 0 && size > max ==> (r matches Err(m) && m@ == too_large_message(max as nat)),
        size != 0 && size <= max ==> r is Ok,
{
    if size == 0 {
        return Err(String::from_str("The Provided file was empty"));
    }
    if size > max {
        let mut m = String::from_str("The uploaded file is too large. Maximum size is ");
        push_decimal(&mut m, max);
        m.append(" bytes.");
        return Err(m);
    }
    Ok(())
}

/// Checks an upload to an Antrag in the order of the upload route: the
/// Antrag must exist; then the requester must manage Anträge or be among
/// its creators; then the file must be neither empty nor above `max` bytes.
/// A refusal is the route's answer; `None` means the file may be stored.
pub fn check_upload<T>(
    may_manage: bool,
    creators: Option<&Vec<u128>>,
    person_id: u128,
    upload: &UploadAntrag,
    max: usize,
) -> (r: Option<RestStatus<T>>)
    ensures
        match creators {
            None => r matches Some(RestStatus::NotFound),
            Some(c) => if !(may_manage || c@.contains(person_id)) {
                r matches Some(RestStatus::Status(code, m)) && code == 401
                    && m@ == "you are not a creator of this antrag"@
            } else if upload.size == 0 {
                r matches Some(RestStatus::BadRequest(m)) && m@ == "The Provided file was empty"@
            } else if upload.size > max {
                r matches Some(RestStatus::BadRequest(m)) && m@ == too_large_message(max as nat)
            } else {
                r is None
            },
        },
{
    let access = upload_access(may_manage, creators, person_id);
    if let Some(refusal) = access_rejection(access) {
        return Some(refusal);
    }
    match check_upload_size(upload.size, max) {
        Err(m) => Some(RestStatus::BadRequest(m)),
        Ok(()) => None,
    }
}

/// The name under which an uploaded file is stored: its own, else `null`.
pub fn attachment_file_name(name: Option<&str>) -> (r: String)
    ensures
        r@ == match name {
            Some(n) => n@,
            None => "null"@,
        },
{
    match name {
        Some(n) => String::from_str(n),
        None => String::from_str("null"),
    }
}

/// The `Content-Disposition` header with which an attachment is served.
pub fn content_disposition(filename: &str) -> (r: String)
    ensures
        r@ == "attachment; filename=\""@ + filename@ + "\""@,
{
    let mut r = String::from_str("attachment; filename=\"");
    r.append(filename);
    r.append("\"");
    r
}

/// The body of `POST /api/anträge`.
#[derive(Debug)]
pub struct CreateAntragParams {
    pub begruendung: String,
    pub antragstext: String,
    pub titel: String,
}

impl CreateAntragParams {
    /// The fields that are empty, in declaration order.
    pub open spec fn spec_errors(&self) -> Seq<Seq<char>> {
        note_required(
            note_required(note_required(Seq::empty(), "begründung"@, self.begruendung@), "antragstext"@, self.antragstext@),
            "titel"@,
            self.titel@,
        )
    }

    /// Reason, text and title are non-empty.
    pub fn validate(&self) -> (r: Result<(), Vec<String>>)
        ensures
            match r {
                Ok(()) => self.spec_errors().len() == 0,
                Err(v) => texts(v@) == self.spec_errors() && v@.len() > 0,
            },
            (r is Ok) <==> (self.begruendung@.len() >= 1 && self.antragstext@.len() >= 1 && self.titel@.len() >= 1),
    {
        let mut errors: Vec<String> = Vec::new();
        require_length(&mut errors, "begründung", self.begruendung.as_str());
        require_length(&mut errors, "antragstext", self.antragstext.as_str());
        require_length(&mut errors, "titel", self.titel.as_str());
        assert(texts(errors@).len() == errors@.len());
        outcome(errors)
    }
}

/// The body of `PATCH /api/anträge/{id}`.
#[derive(Debug)]
pub struct UpdateAntragParams {
    pub begruendung: Option<String>,
    pub antragstext: Option<String>,
    pub titel: Option<String>,
}

/// A body of `POST /api/anträge` passes its checks exactly where reason,
/// text and title are all non-empty; otherwise the errors name each empty
/// one of them, and only those.
pub proof fn lemma_create_antrag_errors(p: CreateAntragParams)
    ensures
        (p.spec_errors().len() == 0) <==> (p.begruendung@.len() >= 1 && p.antragstext@.len() >= 1
            && p.titel@.len() >= 1),
        p.spec_errors().contains("begründung"@) <==> p.begruendung@.len() == 0,
        p.spec_errors().contains("antragstext"@) <==> p.antragstext@.len() == 0,
        p.spec_errors().contains("titel"@) <==> p.titel@.len() == 0,
{
    reveal_strlit("begründung");
    reveal_strlit("antragstext");
    reveal_strlit("titel");
    let b: Seq<Seq<char>> = if p.begruendung@.len() >= 1 { Seq::empty() } else { seq!["begründung"@] };
    let t = if p.antragstext@.len() >= 1 { b } else { b.push("antragstext"@) };
    let e = if p.titel@.len() >= 1 { t } else { t.push("titel"@) };
    assert(p.spec_errors() =~= e);
    assert("begründung"@ != "antragstext"@ && "begründung"@ != "titel"@ && "antragstext"@ != "titel"@) by {
        assert("begründung"@[0] != "antragstext"@[0]);
        assert("begründung"@[0] != "titel"@[0]);
        assert("antragstext"@[0] != "titel"@[0]);
    }
    if e.contains("begründung"@) {
        let k = choose|k: int| 0 <= k < e.len() && e[k] == "begründung"@;
        assert(k == 0);
    }
    if e.contains("antragstext"@) {
        let k = choose|k: int| 0 <= k < e.len() && e[k] == "antragstext"@;
        assert(e[k] == "antragstext"@);
    }
    if e.contains("titel"@) {
        let k = choose|k: int| 0 <= k < e.len() && e[k] == "titel"@;
        assert(e[k] == "titel"@);
    }
    if p.begruendung@.len() == 0 {
        assert(e[0] == "begründung"@);
    }
    if p.antragstext@.len() == 0 {
        assert(t[t.len() - 1] == "antragstext"@);
        assert(e[t.len() - 1] == "antragstext"@);
    }
    if p.titel@.len() == 0 {
        assert(e[e.len() - 1] == "titel"@);
    }
}

impl UpdateAntragParams {
    /// The given fields that are empty, in declaration order.
    pub open spec fn spec_errors(&self) -> Seq<Seq<char>> {
        note_optional(
            note_optional(note_optional(Seq::empty(), "begründung"@, self.begruendung), "antragstext"@, self.antragstext),
            "titel"@,
            self.titel,
        )
    }

    /// Every given text is non-empty.
    pub fn validate(&self) -> (r: Result<(), Vec<String>>)
        ensures
            match r {
                Ok(()) => self.spec_errors().len() == 0,
                Err(v) => texts(v@) == self.spec_errors() && v@.len() > 0,
            },
            (r is Ok) <==> (given_non_empty(self.begruendung) && given_non_empty(self.antragstext) && given_non_empty(self.titel)),
    {
        let mut errors: Vec<String> = Vec::new();
        require_optional_length(&mut errors, "begründung", &self.begruendung);
        require_optional_length(&mut errors, "antragstext", &self.antragstext);
        require_optional_length(&mut errors, "titel", &self.titel);
        assert(texts(errors@).len() == errors@.len());
        outcome(errors)
    }
}

} // verus!
