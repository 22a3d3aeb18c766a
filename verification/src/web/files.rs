//! What the static file route serves to whom.
use vstd::prelude::*;
use vstd::string::StringExecFns;

use super::auth::capability::{spec_allows, spec_has_capability, Capability, CapabilitySet};
use super::auth::User;
use async_std::path::Component as AsyncComponent;

verus! {

/// The content folders: public for everyone, hidden for those who may view
/// hidden content, protected for those who may view protected content.
#[derive(Clone, Copy, Debug, PartialEq, Eq, Structural)]
pub enum ContentClass {
    Public,
    Hidden,
    Protected,
}

/// The content folder that `user` is served from.
pub open spec fn spec_content_class(user: Option<&User>, caps: Seq<(Seq<char>, Capability)>) -> ContentClass {
    match user {
        Some(u) => if spec_has_capability(caps, u.group_names(), Capability::ViewProtected) {
            ContentClass::Protected
        } else if spec_has_capability(caps, u.group_names(), Capability::ViewHidden) {
            ContentClass::Hidden
        } else {
            ContentClass::Public
        },
        None => ContentClass::Public,
    }
}

/// Picks the content folder for the request's user.
pub fn content_class(user: Option<&User>, caps: &CapabilitySet) -> (r: ContentClass)
    ensures
        r == spec_content_class(user, caps@),
{
    match user {
        Some(u) => if u.has_capability(caps, Capability::ViewProtected) {
            ContentClass::Protected
        } else if u.has_capability(caps, Capability::ViewHidden) {
            ContentClass::Hidden
        } else {
            ContentClass::Public
        },
        None => ContentClass::Public,
    }
}

/// Admin includes viewing protected content: an admin is served the
/// protected folder.
pub proof fn lemma_admin_sees_protected(user: &User, caps: Seq<(Seq<char>, Capability)>)
    requires
        spec_allows(caps, user.group_names(), Capability::Admin),
    ensures
        spec_content_class(Some(user), caps) == ContentClass::Protected,
{
}

/// Whoever may view protected content is served the protected folder;
/// whoever may not, but may view hidden content, the hidden folder; every
/// other user the public one.
pub proof fn lemma_content_class_by_capability(user: &User, caps: Seq<(Seq<char>, Capability)>)
    ensures
        spec_has_capability(caps, user.group_names(), Capability::ViewProtected)
            ==> spec_content_class(Some(user), caps) == ContentClass::Protected,
        !spec_has_capability(caps, user.group_names(), Capability::ViewProtected)
            && spec_has_capability(caps, user.group_names(), Capability::ViewHidden)
            ==> spec_content_class(Some(user), caps) == ContentClass::Hidden,
        !spec_has_capability(caps, user.group_names(), Capability::ViewProtected)
            && !spec_has_capability(caps, user.group_names(), Capability::ViewHidden)
            ==> spec_content_class(Some(user), caps) == ContentClass::Public,
{
}

/// An anonymous request is served the public folder.
pub proof fn lemma_anonymous_sees_public(caps: Seq<(Seq<char>, Capability)>)
    ensures
        spec_content_class(None, caps) == ContentClass::Public,
{
}

/// The kinds of components of a path.
#[derive(Clone, Copy, Debug, PartialEq, Eq, Structural)]
pub enum PathComponentKind {
    Prefix,
    RootDir,
    CurDir,
    ParentDir,
    Normal,
}

/// The kinds of the components that `async_std::path::Path::components`
/// yields for `path`.
pub uninterp spec fn spec_path_components(path: Seq<char>) -> Seq<PathComponentKind>;

/// `path` has a segment `..`: one that the start or a `/` opens and a `/`
/// or the end closes.
pub open spec fn has_parent_segment(path: Seq<char>) -> bool {
    exists|i: int|
        0 <= i && i + 2 <= path.len() && #[trigger] path[i] == '.' && path[i + 1] == '.'
            && (i == 0 || path[i - 1] == '/') && (i + 2 == path.len() || path[i + 2] == '/')
}

/// Splits `path` into components with `async_std::path::Path::components`
/// and keeps each one's kind. The result is named; of it is stated that a
/// path that starts with `/` starts with the root directory, and that a `..`
/// segment gives a parent-directory component (`components` keeps them as
/// they are) in a path without a backslash, where `/` always separates.
#[verifier::external_body]
fn path_components(path: &str) -> (r: Vec<PathComponentKind>)
    ensures
        r@ == spec_path_components(path@),
        path@.len() > 0 && path@[0] == '/' ==> r@.len() > 0 && r@[0] == PathComponentKind::RootDir,
        !path@.contains('\\') && has_parent_segment(path@) ==> r@.contains(PathComponentKind::ParentDir),
{
    let mut kinds = Vec::new();
    for c in async_std::path::Path::new(path).components() {
        kinds.push(match c {
            AsyncComponent::Prefix(_) => PathComponentKind::Prefix,
            AsyncComponent::RootDir => PathComponentKind::RootDir,
            AsyncComponent::CurDir => PathComponentKind::CurDir,
            AsyncComponent::ParentDir => PathComponentKind::ParentDir,
            AsyncComponent::Normal(_) => PathComponentKind::Normal,
        });
    }
    kinds
}

/// A requested path stays inside the content folder: none of its
/// components steps up, starts again at the root or names a drive prefix.
pub open spec fn spec_is_safe_sub_path(path: Seq<char>) -> bool {
    forall|k: int|
        0 <= k < spec_path_components(path).len() ==> {
            let c = #[trigger] spec_path_components(path)[k];
            c != PathComponentKind::ParentDir && c != PathComponentKind::Prefix && c != PathComponentKind::RootDir
        }
}

/// Whether the requested path may be served; otherwise the answer is the
/// not-found page.
pub fn is_safe_sub_path(path: &str) -> (r: bool)
    ensures
        r == spec_is_safe_sub_path(path@),
        path@.len() > 0 && path@[0] == '/' ==> !r,
        !path@.contains('\\') && has_parent_segment(path@) ==> !r,
{
    let kinds = path_components(path);
    assert(path@.len() > 0 && path@[0] == '/' ==> kinds@[0] == PathComponentKind::RootDir);
    proof {
        if !path@.contains('\\') && has_parent_segment(path@) {
            let k = choose|k: int| 0 <= k < kinds@.len() && kinds@[k] == PathComponentKind::ParentDir;
            assert(spec_path_components(path@)[k] == PathComponentKind::ParentDir);
        }
    }
    for i in 0..kinds.len()
        invariant
            kinds@ == spec_path_components(path@),
            forall|k: int| 0 <= k < i ==> {
                let c = #[trigger] kinds@[k];
                c != PathComponentKind::ParentDir && c != PathComponentKind::Prefix && c != PathComponentKind::RootDir
            },
    {
        let c = kinds[i];
        if c == PathComponentKind::ParentDir || c == PathComponentKind::Prefix || c == PathComponentKind::RootDir {
            return false;
        }
    }
    true
}

/// What follows a file that could not be opened.
#[derive(Clone, Copy, Debug, PartialEq, Eq, Structural)]
pub enum OpenFailure {
    /// Try the German version of the path.
    TryRedirect,
    /// Answer with the not-found page.
    NotFoundPage,
}

/// A missing file leads to the German version of the path; any other
/// failure to the not-found page.
pub fn after_open_failure(file_missing: bool) -> (r: OpenFailure)
    ensures
        r == (if file_missing { OpenFailure::TryRedirect } else { OpenFailure::NotFoundPage }),
{
    if file_missing {
        OpenFailure::TryRedirect
    } else {
        OpenFailure::NotFoundPage
    }
}

/// Where a path that exists only in the German content is redirected to.
pub fn localized_location(path: &str) -> (r: String)
    ensures
        r@ == "/de/"@ + path@,
{
    let mut r = String::from_str("/de/");
    r.append(path);
    r
}

/// A `Cache-Control` directive.
#[derive(Clone, Copy, Debug, PartialEq, Eq, Structural)]
pub enum CacheDirective {
    Private,
    MustRevalidate,
    MaxAge(u32),
    Immutable,
}

/// How a served file may be cached.
pub struct CachePolicy {
    /// Whether the `Last-Modified` header is sent.
    pub last_modified: bool,
    /// Whether the `ETag` header is sent.
    pub etag: bool,
    /// The `Cache-Control` directives.
    pub directives: Vec<CacheDirective>,
}

/// HTML is revalidated on every request; all other content is taken to be
/// fingerprinted and cached for a year. No file carries `Last-Modified`,
/// and only HTML carries an `ETag`.
pub fn cache_policy(is_html: bool) -> (r: CachePolicy)
    ensures
        !r.last_modified,
        r.etag == is_html,
        is_html ==> r.directives@ == seq![CacheDirective::Private, CacheDirective::MustRevalidate, CacheDirective::MaxAge(0)],
        !is_html ==> r.directives@ == seq![CacheDirective::Immutable, CacheDirective::MaxAge(31536000)],
{
    if is_html {
        CachePolicy {
            last_modified: false,
            etag: true,
            directives: vec![CacheDirective::Private, CacheDirective::MustRevalidate, CacheDirective::MaxAge(0)],
        }
    } else {
        CachePolicy {
            last_modified: false,
            etag: false,
            directives: vec![CacheDirective::Immutable, CacheDirective::MaxAge(31536000)],
        }
    }
}

} // verus!
