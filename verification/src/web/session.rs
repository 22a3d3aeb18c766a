//! The cookie session of the older authentication routes: when a session
//! is refreshed, how the request's `Cookie` header is rewritten, and the
//! redirect of an unauthorised request to the login.
use vstd::prelude::*;
use vstd::string::StringExecFns;

use crate::text::{
    ascii_text, chars_of, contains_infix, first_index_of, has_infix, header_is_text,
    header_value_ok, index_of, is_header_text, is_header_value, split_chars, split_on,
    string_of, string_of_ascii,
};
use super::Error;

verus! {

/// Whether the session is refreshed: a refresh token without valid user
/// info, or user info that runs out within 30 seconds. `user_exp` is the
/// expiry of the user cookie's content where that is still valid at `now`.
pub fn needs_refresh(has_refresh_token: bool, user_exp: Option<i64>, now: i64) -> (r: bool)
    ensures
        r == ((has_refresh_token && user_exp is None) || (user_exp matches Some(e) && e - 30 < now)),
{
    match user_exp {
        None => has_refresh_token,
        Some(e) => (e as i128) - 30 < (now as i128),
    }
}

/// The `Set-Cookie` value sent for a cookie value after a refresh; every
/// one of them is written as a refresh token.
pub open spec fn session_line(value: Seq<char>) -> Seq<char> {
    "refresh_token="@ + value + "; SameSite=None; Path=/"@
}

/// Appends the line for a value that is present, where it is a valid
/// header value.
pub open spec fn push_session_line(acc: Seq<Seq<char>>, value: Option<Seq<char>>) -> Seq<Seq<char>> {
    match value {
        Some(v) => if header_value_ok(session_line(v)) {
            acc.push(session_line(v))
        } else {
            acc
        },
        None => acc,
    }
}

fn push_session(lines: &mut Vec<String>, value: Option<&str>)
    ensures
        final(lines)@.map_values(|s: String| s@) == push_session_line(
            old(lines)@.map_values(|s: String| s@),
            match value { Some(v) => Some(v@), None => None },
        ),
{
    if let Some(v) = value {
        let mut line = String::from_str("refresh_token=");
        line.append(v);
        line.append("; SameSite=None; Path=/");
        if is_header_value(line.as_str()) {
            let ghost before = lines@;
            lines.push(line);
            assert(lines@.map_values(|s: String| s@) =~= before.map_values(|s: String| s@).push(line@));
        }
    }
}

/// The `Set-Cookie` values appended after a refresh, for the refresh token,
/// the access token and the user cookie, each where present.
pub fn session_renewal_lines(refresh: Option<&str>, access: Option<&str>, user: Option<&str>) -> (r: Vec<String>)
    ensures
        r@.map_values(|s: String| s@) == push_session_line(
            push_session_line(
                push_session_line(Seq::empty(), match refresh { Some(v) => Some(v@), None => None }),
                match access { Some(v) => Some(v@), None => None },
            ),
            match user { Some(v) => Some(v@), None => None },
        ),
{
    let mut lines: Vec<String> = Vec::new();
    assert(lines@.map_values(|s: String| s@) =~= Seq::<Seq<char>>::empty());
    push_session(&mut lines, refresh);
    push_session(&mut lines, access);
    push_session(&mut lines, user);
    lines
}

/// A piece of the `Cookie` header is dropped where it has a name (text
/// before its first `=`) that contains `refresh_token`, `access_token` or
/// `user`.
pub open spec fn dropped_piece(p: Seq<char>) -> bool {
    match first_index_of(p, '=') {
        Some(i) => {
            let name = p.take(i);
            has_infix(name, "refresh_token"@) || has_infix(name, "access_token"@) || has_infix(name, "user"@)
        },
        None => false,
    }
}

/// The kept pieces, each after a `;`.
pub open spec fn kept_pieces(pieces: Seq<Seq<char>>) -> Seq<char>
    decreases pieces.len(),
{
    if pieces.len() == 0 {
        Seq::empty()
    } else if dropped_piece(pieces.last()) {
        kept_pieces(pieces.drop_last())
    } else {
        kept_pieces(pieces.drop_last()) + ";"@ + pieces.last()
    }
}

/// The rewritten `Cookie` header: the new session cookies first, then the
/// other cookies of the old header, and a closing `;`.
pub open spec fn spec_rewritten_cookie_header(
    header: Seq<char>,
    refresh: Seq<char>,
    access: Seq<char>,
    user: Seq<char>,
) -> Seq<char> {
    "refresh_token="@ + refresh + "; access_token="@ + access + "; user="@ + user
        + kept_pieces(split_on(header, ';')) + ";"@
}

/// Why the `Cookie` header could not be rewritten.
#[derive(Clone, Copy, Debug, PartialEq, Eq, Structural)]
pub enum RewriteFailure {
    /// The old header is not text.
    NotText,
    /// The new header is no valid header value.
    InvalidValue,
}

fn dropped(piece: &Vec<char>) -> (r: bool)
    ensures
        r == dropped_piece(piece@),
{
    match index_of(piece, '=') {
        None => false,
        Some(i) => {
            proof {
                crate::text::lemma_first_index_of_bound(piece@, '=');
            }
            let mut name: Vec<char> = Vec::new();
            for k in 0..i
                invariant
                    i <= piece@.len(),
                    name@ == piece@.take(k as int),
            {
                name.push(piece[k]);
                assert(piece@.take(k + 1) == piece@.take(k as int).push(piece@[k as int]));
            }
            contains_infix(&name, &chars_of("refresh_token")) || contains_infix(&name, &chars_of("access_token"))
                || contains_infix(&name, &chars_of("user"))
        },
    }
}

/// Rewrites the request's `Cookie` header after a refresh: the pieces
/// between `;` whose name mentions a session cookie are dropped, the new
/// session cookies come first.
pub fn rewrite_cookie_header(header: &[u8], refresh: &str, access: &str, user: &str) -> (r: Result<String, RewriteFailure>)
    ensures
        !header_is_text(header@) ==> r == Err::<String, RewriteFailure>(RewriteFailure::NotText),
        header_is_text(header@) ==> {
            let out = spec_rewritten_cookie_header(ascii_text(header@), refresh@, access@, user@);
            if header_value_ok(out) {
                r matches Ok(s) && s@ == out
            } else {
                r == Err::<String, RewriteFailure>(RewriteFailure::InvalidValue)
            }
        },
{
    if !is_header_text(header) {
        return Err(RewriteFailure::NotText);
    }
    let text = string_of_ascii(header);
    let pieces = split_chars(&chars_of(text.as_str()), ';');
    let ghost ps = split_on(ascii_text(header@), ';');
    let mut out = String::from_str("refresh_token=");
    out.append(refresh);
    out.append("; access_token=");
    out.append(access);
    out.append("; user=");
    out.append(user);
    let ghost head = out@;
    for i in 0..pieces.len()
        invariant
            ps == split_on(ascii_text(header@), ';'),
            pieces@.len() == ps.len(),
            forall|k: int| 0 <= k < pieces@.len() ==> #[trigger] pieces@[k]@ == ps[k],
            out@ == head + kept_pieces(ps.take(i as int)),
    {
        proof {
            assert(ps.take(i + 1).drop_last() == ps.take(i as int));
            assert(ps.take(i + 1).last() == ps[i as int]);
        }
        if !dropped(&pieces[i]) {
            out.append(";");
            let p = string_of(&pieces[i]);
            out.append(p.as_str());
        }
    }
    proof {
        assert(ps.take(ps.len() as int) == ps);
    }
    out.append(";");
    if is_header_value(out.as_str()) {
        Ok(out)
    } else {
        Err(RewriteFailure::InvalidValue)
    }
}

/// The location that an unauthorised request is sent to: the login, which
/// returns to the requested path. A path that makes no valid header value
/// is refused with `Invalid Path`.
pub fn login_location(path: &str) -> (r: Result<String, Error>)
    ensures
        header_value_ok("/auth/login/?path="@ + path@) ==> (r matches Ok(s) && s@ == "/auth/login/?path="@ + path@),
        !header_value_ok("/auth/login/?path="@ + path@) ==> (r matches Err(e) && e.text() == "Invalid Path"@),
{
    let mut l = String::from_str("/auth/login/?path=");
    l.append(path);
    if is_header_value(l.as_str()) {
        Ok(l)
    } else {
        Err(Error::Message(String::from_str("Invalid Path")))
    }
}

/// Where a request's user comes from on the older routes.
#[derive(Debug)]
pub enum SessionUser {
    /// The user cookie, still valid.
    Cookie,
    /// Ask the provider with the access token.
    FetchWithToken(String),
    /// 401 `Could not access user info`.
    Unauthorized,
}

/// A valid user cookie serves; else an access token is used; else the
/// request is unauthorised.
pub fn session_user(user_cookie_valid: bool, access_token: Option<&str>) -> (r: SessionUser)
    ensures
        user_cookie_valid ==> r is Cookie,
        !user_cookie_valid ==> match access_token {
            Some(a) => r matches SessionUser::FetchWithToken(t) && t@ == a@,
            None => r is Unauthorized,
        },
{
    if user_cookie_valid {
        SessionUser::Cookie
    } else {
        match access_token {
            Some(a) => SessionUser::FetchWithToken(String::from_str(a)),
            None => SessionUser::Unauthorized,
        }
    }
}

} // verus!
