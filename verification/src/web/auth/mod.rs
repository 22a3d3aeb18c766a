//! Users, and the decisions of the authentication middleware and routes.
use vstd::prelude::*;
use vstd::string::StringExecFns;

pub mod capability;

use crate::text::{
    ascii_text, chars_eq, chars_of, first_index_of, header_char_ok, header_is_text, header_value_ok, is_ascii_ws,
    is_header_text, is_header_value, push_decimal, spec_decimal, string_of_ascii, words_of, ws_words,
};
use capability::{spec_has_capability, Capability, CapabilitySet};
use super::Error;
use super::api::persons::Person;

verus! {

/// The user that the OAuth provider describes.
#[derive(Debug)]
pub struct User {
    /// Unix time after which the cached user info must be fetched again.
    pub exp: i64,
    pub name: String,
    pub preferred_username: String,
    pub sub: String,
    /// The OAuth groups; missing in the provider's answer means none.
    pub groups: Vec<String>,
}

impl User {
    /// The user's groups as text.
    pub open spec fn group_names(&self) -> Seq<Seq<char>> {
        self.groups@.map_values(|g: String| g@)
    }

    /// Whether the user may use `cap` under the configured grants.
    pub fn has_capability(&self, caps: &CapabilitySet, cap: Capability) -> (r: bool)
        ensures
            r == spec_has_capability(caps@, self.group_names(), cap),
    {
        caps.has_capability(&self.groups, cap)
    }

    /// Whether the user belongs to the student council group.
    pub fn is_rat(&self) -> (r: bool)
        ensures
            r == self.group_names().contains("FS_Rat_Informatik"@),
    {
        let rat = String::from_str("FS_Rat_Informatik");
        for i in 0..self.groups.len()
            invariant
                rat@ == "FS_Rat_Informatik"@,
                forall|k: int| 0 <= k < i ==> self.group_names()[k] != rat@,
        {
            if self.groups[i] == rat {
                assert(self.group_names()[i as int] == rat@);
                return true;
            }
        }
        false
    }

    /// The user name under which the user's person is stored: the OAuth
    /// source's name, a hyphen and the subject.
    pub fn person_user_name(&self, source: &str) -> (r: String)
        ensures
            r@ == source@ + "-"@ + self.sub@,
    {
        let mut r = String::from_str(source);
        r.append("-");
        r.append(self.sub.as_str());
        r
    }

    /// The cached user info is still valid at `now`.
    pub fn is_unexpired(&self, now: i64) -> (r: bool)
        ensures
            r == (self.exp > now),
    {
        self.exp > now
    }

    /// The cached user info runs out within 30 seconds of `now`.
    pub fn expires_soon(&self, now: i64) -> (r: bool)
        ensures
            r == (self.exp - 30 < now),
    {
        (self.exp as i128) - 30 < (now as i128)
    }
}

/// The expiry given to user info that carries none: five minutes from now.
pub fn exp_default(now: i64) -> (r: i64)
    requires
        now <= i64::MAX - 300,
    ensures
        r == now + 300,
{
    now + 300
}

/// The bearer token that an `Authorization` header carries, by the
/// header's bytes.
pub open spec fn spec_token_from_auth_header(header: Seq<u8>) -> Option<Seq<char>> {
    if !header_is_text(header) {
        None
    } else {
        let words = ws_words(header);
        if words.len() != 2 || ascii_text(words[0]) != "Bearer"@ {
            None
        } else {
            Some(ascii_text(words[1]))
        }
    }
}

/// Reads `Bearer <token>` from an `Authorization` header: the header must
/// be text, and split at whitespace into exactly these two words.
pub fn token_from_auth_header(header: &[u8]) -> (r: Option<String>)
    ensures
        match r {
            Some(t) => spec_token_from_auth_header(header@) == Some(t@),
            None => spec_token_from_auth_header(header@) is None,
        },
{
    if !is_header_text(header) {
        return None;
    }
    let words = words_of(header);
    if words.len() != 2 {
        return None;
    }
    let first = string_of_ascii(words[0].as_slice());
    if !chars_eq(&chars_of(first.as_str()), &chars_of("Bearer")) {
        return None;
    }
    Some(string_of_ascii(words[1].as_slice()))
}

/// The bytes `Bearer ` that start a bearer `Authorization` header.
pub open spec fn bearer_prefix() -> Seq<u8> {
    seq![66u8, 101u8, 97u8, 114u8, 101u8, 114u8, 32u8]
}

/// A header `Bearer <token>` yields the token, for every token of visible,
/// non-whitespace ASCII.
pub proof fn lemma_bearer_header_yields_token(t: Seq<u8>)
    requires
        t.len() > 0,
        forall|k: int| 0 <= k < t.len() ==> 33 <= #[trigger] t[k] && t[k] < 127,
    ensures
        spec_token_from_auth_header(bearer_prefix() + t) == Some(ascii_text(t)),
{
    let word = seq![66u8, 101u8, 97u8, 114u8, 101u8, 114u8];
    let space = seq![32u8];
    assert(bearer_prefix() == word + space);
    crate::text::lemma_ws_words_append_word(Seq::<u8>::empty(), word);
    assert(Seq::<u8>::empty() + word == word);
    assert(ws_words(word) == seq![word]);
    assert((word + space).drop_last() == word);
    assert(ws_words(word + space) == seq![word]);
    assert forall|k: int| 0 <= k < t.len() implies !is_ascii_ws(#[trigger] t[k]) by {}
    crate::text::lemma_ws_words_append_word(word + space, t);
    let h = bearer_prefix() + t;
    assert(ws_words(h) == seq![word, t]);
    assert forall|k: int| 0 <= k < h.len() implies crate::text::visible_ascii(#[trigger] h[k]) by {
        if k >= 7 {
            assert(h[k] == t[k - 7]);
        }
    }
    reveal_strlit("Bearer");
    assert(ascii_text(word) =~= "Bearer"@);
}

/// How the authentication middleware obtains the request's user.
#[derive(Debug)]
pub enum UserAcquisition {
    /// The cached user info is valid and stays.
    Keep(User),
    /// Exchange the refresh token for new tokens and user info.
    Refresh,
    /// Ask the provider for the user that this access token belongs to.
    FetchWithToken(String),
    /// The request stays anonymous.
    Anonymous,
}

/// The outcome of the search for the request's user.
pub struct Acquired<U> {
    /// The user attached to the request, if any.
    pub user: Option<U>,
    /// Whether the response renews the session cookies.
    pub renew_cookies: bool,
}

/// The seconds that a refreshed cookie lives: 30 days.
pub const COOKIE_MAX_AGE_SECS: i64 = 2592000;

/// The `Set-Cookie` value that renews the cookie `name=value` in the
/// browser, where `duration` is its lifetime in seconds.
pub open spec fn renewal_line(name: Seq<char>, value: Seq<char>, duration: Seq<char>) -> Seq<char> {
    name + "="@ + value + "; SameSite=None; Path=/; Secure; Max-Age="@ + duration + ";"@
}

/// Appends the renewal line of a cookie that is present, where the line is
/// a valid header value.
pub open spec fn push_line(acc: Seq<Seq<char>>, name: Seq<char>, value: Option<Seq<char>>, duration: Seq<char>) -> Seq<Seq<char>> {
    match value {
        Some(v) => if header_value_ok(renewal_line(name, v, duration)) {
            acc.push(renewal_line(name, v, duration))
        } else {
            acc
        },
        None => acc,
    }
}

/// The `Set-Cookie` values sent after a refresh, for the refresh token,
/// the access token and the user cookie, each where present, each living
/// 30 days.
pub open spec fn spec_renewal_lines(
    refresh: Option<Seq<char>>,
    access: Option<Seq<char>>,
    user: Option<Seq<char>>,
) -> Seq<Seq<char>> {
    let d = spec_decimal(COOKIE_MAX_AGE_SECS as nat);
    push_line(
        push_line(push_line(Seq::empty(), "refresh_token"@, refresh, d), "access_token"@, access, d),
        "user"@,
        user,
        d,
    )
}

/// The view of an optional text.
pub open spec fn opt_view(s: Option<&str>) -> Option<Seq<char>> {
    match s {
        Some(v) => Some(v@),
        None => None,
    }
}

fn renewal_line_for(name: &str, value: &str, duration: &str) -> (r: String)
    ensures
        r@ == renewal_line(name@, value@, duration@),
{
    let mut r = String::from_str(name);
    r.append("=");
    r.append(value);
    r.append("; SameSite=None; Path=/; Secure; Max-Age=");
    r.append(duration);
    r.append(";");
    r
}

fn push_valid_line(lines: &mut Vec<String>, name: &str, value: Option<&str>, duration: &str)
    ensures
        final(lines)@.map_values(|s: String| s@) == push_line(
            old(lines)@.map_values(|s: String| s@),
            name@,
            opt_view(value),
            duration@,
        ),
{
    if let Some(v) = value {
        let line = renewal_line_for(name, v, duration);
        if is_header_value(line.as_str()) {
            let ghost before = lines@;
            lines.push(line);
            assert(lines@.map_values(|s: String| s@) =~= before.map_values(|s: String| s@).push(line@));
        }
    }
}

/// The authentication middleware, as a factory of per-service instances.
pub struct AuthMiddle;

impl AuthMiddle {
    /// Wraps `service` in the middleware.
    pub fn new_transform<S>(&self, service: S) -> (m: AuthMiddleware<S>)
        ensures
            m.wrapped() == service,
    {
        AuthMiddleware { service }
    }
}

/// The authentication middleware around one service.
pub struct AuthMiddleware<S> {
    service: S,
}

impl<S> AuthMiddleware<S> {
    /// The wrapped service.
    pub closed spec fn wrapped(&self) -> S {
        self.service
    }

    /// The wrapped service, to which every request is passed on.
    pub fn service(&self) -> (s: &S)
        ensures
            *s == self.wrapped(),
    {
        &self.service
    }

    /// Decides how to obtain the request's user, from the user cookie's
    /// content (signature checked, not yet its expiry), the time, the
    /// `Authorization` header and the token cookies:
    /// a cached user that is still valid stays unless it runs out within 30
    /// seconds, which asks for a refresh; without one, an `Authorization`
    /// header decides alone; then a refresh token asks for a refresh; then
    /// an access token is used to fetch the user.
    pub fn acquire_plan(
        &self,
        cookie_user: Option<User>,
        now: i64,
        auth_header: Option<&[u8]>,
        has_refresh_token: bool,
        access_token: Option<&str>,
    ) -> (r: UserAcquisition)
        ensures
            match cookie_user {
                Some(u) if u.exp > now => if u.exp - 30 < now {
                    r is Refresh
                } else {
                    r == UserAcquisition::Keep(u)
                },
                _ => match auth_header {
                    Some(h) => match spec_token_from_auth_header(h@) {
                        Some(t) => r matches UserAcquisition::FetchWithToken(s) && s@ == t,
                        None => r is Anonymous,
                    },
                    None => if has_refresh_token {
                        r is Refresh
                    } else {
                        match access_token {
                            Some(a) => r matches UserAcquisition::FetchWithToken(s) && s@ == a@,
                            None => r is Anonymous,
                        }
                    },
                },
            },
    {
        if let Some(u) = cookie_user {
            if u.is_unexpired(now) {
                if u.expires_soon(now) {
                    return UserAcquisition::Refresh;
                } else {
                    return UserAcquisition::Keep(u);
                }
            }
        }
        if let Some(h) = auth_header {
            return match token_from_auth_header(h) {
                Some(t) => UserAcquisition::FetchWithToken(t),
                None => UserAcquisition::Anonymous,
            };
        }
        if has_refresh_token {
            return UserAcquisition::Refresh;
        }
        match access_token {
            Some(a) => UserAcquisition::FetchWithToken(String::from_str(a)),
            None => UserAcquisition::Anonymous,
        }
    }

    /// What follows the search for the user by `plan`, given the user of
    /// the cookie and what a refresh or fetch gave (`None` where it failed):
    /// a kept user stays, a refresh or fetch gives its user or leaves the
    /// request anonymous, and the session cookies are sent anew after every
    /// refresh, whether it succeeded or not.
    pub fn settle<U>(&self, plan: &UserAcquisition, cookie_user: Option<U>, fetched: Option<U>) -> (r: Acquired<U>)
        ensures
            match plan {
                UserAcquisition::Keep(_) => r.user == cookie_user && !r.renew_cookies,
                UserAcquisition::Refresh => r.user == fetched && r.renew_cookies,
                UserAcquisition::FetchWithToken(_) => r.user == fetched && !r.renew_cookies,
                UserAcquisition::Anonymous => r.user is None && !r.renew_cookies,
            },
    {
        match plan {
            UserAcquisition::Keep(_) => Acquired { user: cookie_user, renew_cookies: false },
            UserAcquisition::Refresh => Acquired { user: fetched, renew_cookies: true },
            UserAcquisition::FetchWithToken(_) => Acquired { user: fetched, renew_cookies: false },
            UserAcquisition::Anonymous => Acquired { user: None, renew_cookies: false },
        }
    }

    /// The `Set-Cookie` values appended to the response after a refresh:
    /// one per cookie present in the jar, in the order refresh token,
    /// access token, user, leaving out any that is no valid header value.
    pub fn renewal_headers(&self, refresh: Option<&str>, access: Option<&str>, user: Option<&str>) -> (r: Vec<String>)
        ensures
            r@.map_values(|s: String| s@) == spec_renewal_lines(opt_view(refresh), opt_view(access), opt_view(user)),
    {
        let mut duration = String::new();
        push_decimal(&mut duration, COOKIE_MAX_AGE_SECS as usize);
        let mut lines: Vec<String> = Vec::new();
        assert(lines@.map_values(|s: String| s@) =~= Seq::<Seq<char>>::empty());
        push_valid_line(&mut lines, "refresh_token", refresh, duration.as_str());
        push_valid_line(&mut lines, "access_token", access, duration.as_str());
        push_valid_line(&mut lines, "user", user, duration.as_str());
        lines
    }
}

/// A cookie's renewal line is a valid header value where its name and value
/// are.
proof fn lemma_renewal_line_valid(name: Seq<char>, value: Seq<char>)
    requires
        header_value_ok(name),
        header_value_ok(value),
    ensures
        spec_decimal(COOKIE_MAX_AGE_SECS as nat) == "2592000"@,
        header_value_ok(renewal_line(name, value, "2592000"@)),
{
    reveal_strlit("2592000");
    reveal_strlit("=");
    reveal_strlit("; SameSite=None; Path=/; Secure; Max-Age=");
    reveal_strlit(";");
    assert(spec_decimal(2592000) =~= seq!['2', '5', '9', '2', '0', '0', '0']) by {
        reveal_with_fuel(spec_decimal, 8);
    }
    assert(spec_decimal(COOKIE_MAX_AGE_SECS as nat) =~= "2592000"@);
    let line = renewal_line(name, value, "2592000"@);
    assert forall|k: int| 0 <= k < line.len() implies header_char_ok(#[trigger] line[k]) by {
        let a = name + "="@;
        let b = a + value;
        let c = b + "; SameSite=None; Path=/; Secure; Max-Age="@;
        let d = c + "2592000"@;
        assert(line == d + ";"@);
        if k < name.len() {
            assert(line[k] == name[k]);
        } else if k < a.len() {
            assert(line[k] == '=');
        } else if k < b.len() {
            assert(line[k] == value[k - a.len()]);
        } else if k < c.len() {
            assert(line[k] == "; SameSite=None; Path=/; Secure; Max-Age="@[k - b.len()]);
        } else if k < d.len() {
            assert(line[k] == "2592000"@[k - c.len()]);
        } else {
            assert(line[k] == ';');
        }
    }
}

/// After a refresh, every cookie whose value is a valid header text is
/// renewed: the response carries the refresh token, the access token and the
/// user cookie, in that order, each living 30 days.
pub proof fn lemma_refresh_renews_cookies(refresh: Seq<char>, access: Seq<char>, user: Seq<char>)
    requires
        header_value_ok(refresh),
        header_value_ok(access),
        header_value_ok(user),
    ensures
        spec_renewal_lines(Some(refresh), Some(access), Some(user)) == seq![
            renewal_line("refresh_token"@, refresh, "2592000"@),
            renewal_line("access_token"@, access, "2592000"@),
            renewal_line("user"@, user, "2592000"@),
        ],
{
    reveal_strlit("refresh_token");
    reveal_strlit("access_token");
    reveal_strlit("user");
    assert(header_value_ok("refresh_token"@));
    assert(header_value_ok("access_token"@));
    assert(header_value_ok("user"@));
    lemma_renewal_line_valid("refresh_token"@, refresh);
    lemma_renewal_line_valid("access_token"@, access);
    lemma_renewal_line_valid("user"@, user);
    assert(spec_renewal_lines(Some(refresh), Some(access), Some(user)) =~= seq![
        renewal_line("refresh_token"@, refresh, "2592000"@),
        renewal_line("access_token"@, access, "2592000"@),
        renewal_line("user"@, user, "2592000"@),
    ]);
}


/// Starts a refresh: the refresh token from the jar, which must be there,
/// as must the OAuth client.
pub fn refresh_start(refresh_token: Option<&str>, client_configured: bool) -> (r: Result<String, Error>)
    ensures
        match refresh_token {
            None => r matches Err(e) && e.text() == "Could not access refresh token"@,
            Some(t) => if client_configured {
                r matches Ok(s) && s@ == t@
            } else {
                r matches Err(e) && e.text() == "oauth client is not configured"@
            },
        },
{
    match refresh_token {
        None => Err(Error::Message(String::from_str("Could not access refresh token"))),
        Some(t) => if client_configured {
            Ok(String::from_str(t))
        } else {
            Err(Error::Message(String::from_str("oauth client is not configured")))
        },
    }
}

/// The refresh token kept after an exchange: the one the provider issued,
/// else `/`.
pub fn refresh_token_after_exchange(issued: Option<&str>) -> (r: String)
    ensures
        r@ == match issued {
            Some(t) => t@,
            None => "/"@,
        },
{
    match issued {
        Some(t) => String::from_str(t),
        None => String::from_str("/"),
    }
}

/// The pattern of the authentication cookies that a refresh replaces in the
/// request's `Cookie` header: each of them, with its value up to the `;`
/// that ends it.
pub const AUTH_COOKIE_PATTERN: &'static str = "(refresh_token=[^;]*;)|(access_token=[^;]*;)|(user=[^;]*;)";

/// The length of the cookie `name` with its `=`, a value without `;` and the
/// `;` that ends it, where `s` starts with such a cookie.
pub open spec fn cookie_at(s: Seq<char>, name: Seq<char>) -> Option<int> {
    let p = name + "="@;
    if p.len() <= s.len() && s.take(p.len() as int) == p {
        match first_index_of(s.skip(p.len() as int), ';') {
            Some(i) => Some(p.len() + i + 1),
            None => None,
        }
    } else {
        None
    }
}

/// The length of the authentication cookie that `s` starts with, trying
/// the refresh token, the access token and the user cookie in that order.
pub open spec fn auth_cookie_at(s: Seq<char>) -> Option<int> {
    match cookie_at(s, "refresh_token"@) {
        Some(n) => Some(n),
        None => match cookie_at(s, "access_token"@) {
            Some(n) => Some(n),
            None => cookie_at(s, "user"@),
        },
    }
}

/// `s` without its authentication cookies: scanning from the left, where
/// one starts it is removed up to and with its `;`, and the scan goes on
/// after it.
pub open spec fn without_auth_cookies(s: Seq<char>) -> Seq<char>
    decreases s.len(),
{
    if s.len() == 0 {
        s
    } else {
        match auth_cookie_at(s) {
            Some(n) => if 0 < n <= s.len() {
                without_auth_cookies(s.skip(n))
            } else {
                s
            },
            None => seq![s[0]] + without_auth_cookies(s.drop_first()),
        }
    }
}

/// Compiles `pattern` with `regex::Regex::new` and removes every match in
/// `haystack` with `Regex::replace_all`. For the authentication cookie
/// pattern, `replace_all` finds the leftmost match, preferring the earlier
/// alternative, and goes on after it; each `[^;]*` runs to the first `;`.
/// So it removes what `without_auth_cookies` removes.
#[verifier::external_body]
fn regex_remove_all(pattern: &str, haystack: &str) -> (r: String)
    requires
        pattern@ == AUTH_COOKIE_PATTERN@,
    ensures
        r@ == without_auth_cookies(haystack@),
{
    regex::Regex::new(pattern).unwrap().replace_all(haystack, "").into_owned()
}

/// The `Cookie` header that a refresh gives the request: the old header
/// without the authentication cookies, followed by the new refresh token,
/// access token and user cookie.
pub open spec fn spec_rebuilt_cookie_header(
    header: Option<Seq<u8>>,
    refresh: Seq<char>,
    access: Seq<char>,
    user: Seq<char>,
) -> Result<Seq<char>, Seq<char>> {
    match header {
        None => Err("Could not read Cookies"@),
        Some(h) => if !header_is_text(h) {
            Err("ToStrError { _priv: () }"@)
        } else {
            let out = without_auth_cookies(ascii_text(h)) + "refresh_token="@ + refresh + ";access_token="@
                + access + ";user="@ + user;
            if header_value_ok(out) {
                Ok(out)
            } else {
                Err("InvalidHeaderValue"@)
            }
        },
    }
}

/// Rebuilds the request's `Cookie` header after a refresh. The errors
/// carry the messages of the failed step: a missing header, a header that
/// is not text (`ToStrError`), a result that is no header value
/// (`InvalidHeaderValue`).
pub fn rebuild_cookie_header(header: Option<&[u8]>, refresh: &str, access: &str, user: &str) -> (r: Result<String, Error>)
    ensures
        match r {
            Ok(s) => spec_rebuilt_cookie_header(
                match header { Some(h) => Some(h@), None => None },
                refresh@, access@, user@,
            ) == Ok::<Seq<char>, Seq<char>>(s@),
            Err(Error::Message(m)) => spec_rebuilt_cookie_header(
                match header { Some(h) => Some(h@), None => None },
                refresh@, access@, user@,
            ) == Err::<Seq<char>, Seq<char>>(m@),
        },
{
    let h = match header {
        None => return Err(Error::Message(String::from_str("Could not read Cookies"))),
        Some(h) => h,
    };
    if !is_header_text(h) {
        return Err(Error::Message(String::from_str("ToStrError { _priv: () }")));
    }
    let text = string_of_ascii(h);
    let mut out = regex_remove_all(AUTH_COOKIE_PATTERN, text.as_str());
    out.append("refresh_token=");
    out.append(refresh);
    out.append(";access_token=");
    out.append(access);
    out.append(";user=");
    out.append(user);
    if is_header_value(out.as_str()) {
        Ok(out)
    } else {
        Err(Error::Message(String::from_str("InvalidHeaderValue")))
    }
}

/// Checks the `state` that the provider hands back against the `csrf`
/// cookie set at login; a rejection carries the body of the 401 answer.
pub fn check_csrf(state: &str, csrf_cookie: Option<&str>) -> (r: Result<(), String>)
    ensures
        match csrf_cookie {
            None => r matches Err(m) && m@ == "missing csrf token"@,
            Some(c) => if state@ == c@ {
                r is Ok
            } else {
                r matches Err(m) && m@ == "wrong csrf state"@
            },
        },
{
    match csrf_cookie {
        None => Err(String::from_str("missing csrf token")),
        Some(c) => if chars_eq(&chars_of(state), &chars_of(c)) {
            Ok(())
        } else {
            Err(String::from_str("wrong csrf state"))
        },
    }
}

/// The path to return to after login: the one asked for, else `/`.
pub fn path_or_root(path: Option<String>) -> (r: String)
    ensures
        r@ == match path {
            Some(p) => p@,
            None => "/"@,
        },
{
    match path {
        Some(p) => p,
        None => String::from_str("/"),
    }
}

/// The refresh token stored after login: the one issued, else empty.
pub fn refresh_token_after_login(issued: Option<&str>) -> (r: String)
    ensures
        r@ == match issued {
            Some(t) => t@,
            None => Seq::<char>::empty(),
        },
{
    match issued {
        Some(t) => String::from_str(t),
        None => String::new(),
    }
}

/// The URL the provider redirects to after login.
pub fn callback_redirect_url(scheme: &str, host: &str, path: &str) -> (r: String)
    ensures
        r@ == scheme@ + "://"@ + host@ + "/auth/callback/?path="@ + path@,
{
    let mut r = String::from_str(scheme);
    r.append("://");
    r.append(host);
    r.append("/auth/callback/?path=");
    r.append(path);
    r
}

/// The person that belongs to the logged-in user, as looked up by
/// `User::person_user_name`; a user without one is told to log in again.
pub fn person_for_user(found: Option<Person>) -> (r: Result<Person, Error>)
    ensures
        match found {
            Some(p) => r == Ok::<Person, Error>(p),
            None => r matches Err(e)
                && e.text() == "no corresponding person found in database, try logging out and back in again"@,
        },
{
    match found {
        Some(p) => Ok(p),
        None => Err(Error::Message(String::from_str(
            "no corresponding person found in database, try logging out and back in again",
        ))),
    }
}

/// The person that a first login creates: display name and user name, or
/// nothing where a person with that user name is already stored.
pub fn person_to_create(user: &User, source: &str, already_stored: bool) -> (r: Option<(String, String)>)
    ensures
        already_stored ==> r is None,
        !already_stored ==> (r matches Some(p) && p.0@ == user.name@ && p.1@ == source@ + "-"@ + user.sub@),
{
    if already_stored {
        None
    } else {
        Some((user.name.clone(), user.person_user_name(source)))
    }
}

} // verus!
