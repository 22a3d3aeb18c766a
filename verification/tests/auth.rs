use fscs_web::web::auth::capability::{
    capability_gate, parse_capability, Capability, CapabilitySet, GateDecision,
};
use fscs_web::web::auth::{
    callback_redirect_url, check_csrf, exp_default, path_or_root, person_for_user,
    person_to_create, rebuild_cookie_header, refresh_start, refresh_token_after_exchange,
    refresh_token_after_login, token_from_auth_header, AuthMiddle, User, UserAcquisition,
};
use fscs_web::web::api::persons::Person;
use fscs_web::web::session::{
    login_location, needs_refresh, rewrite_cookie_header, session_renewal_lines, session_user,
    RewriteFailure, SessionUser,
};
use fscs_web::web::Error;

fn groups(list: &[(&str, &str)]) -> Vec<(String, String)> {
    list.iter().map(|(r, c)| (r.to_string(), c.to_string())).collect()
}

fn user(groups: &[&str], exp: i64) -> User {
    User {
        exp,
        name: "Ada Lovelace".to_string(),
        preferred_username: "ada".to_string(),
        sub: "1234".to_string(),
        groups: groups.iter().map(|g| g.to_string()).collect(),
    }
}

fn chars(s: &str) -> Vec<char> {
    s.chars().collect()
}

#[test]
fn capability_names_parse() {
    assert_eq!(parse_capability(&chars("Admin")), Some(Capability::Admin));
    assert_eq!(parse_capability(&chars("ManageSitzungen")), Some(Capability::ManageSitzungen));
    assert_eq!(parse_capability(&chars("CreateAntrag")), Some(Capability::CreateAntrag));
    assert_eq!(parse_capability(&chars("ManageAnträge")), Some(Capability::ManageAntraege));
    assert_eq!(parse_capability(&chars("ManagePersons")), Some(Capability::ManagePersons));
    assert_eq!(parse_capability(&chars("ViewHidden")), Some(Capability::ViewHidden));
    assert_eq!(parse_capability(&chars("ViewProtected")), Some(Capability::ViewProtected));
    assert_eq!(parse_capability(&chars("admin")), None);
    assert_eq!(parse_capability(&chars("")), None);
}

#[test]
fn groups_grant_listed_capabilities() {
    let set = CapabilitySet::from_groups(&groups(&[("siko", "ManageSitzungen,CreateAntrag")])).unwrap();
    let siko = vec!["siko".to_string()];
    assert!(set.has_capability(&siko, Capability::ManageSitzungen));
    assert!(set.has_capability(&siko, Capability::CreateAntrag));
    assert!(!set.has_capability(&siko, Capability::ManagePersons));
    let other = vec!["other".to_string()];
    assert!(!set.has_capability(&other, Capability::ManageSitzungen));
}

#[test]
fn admin_includes_all_capabilities() {
    let set = CapabilitySet::from_groups(&groups(&[
        ("admins", "Admin"),
        ("siko", "ManageSitzungen"),
    ]))
    .unwrap();
    let admins = vec!["admins".to_string()];
    for cap in [
        Capability::Admin,
        Capability::ManageSitzungen,
        Capability::CreateAntrag,
        Capability::ManageAntraege,
        Capability::ManagePersons,
        Capability::ViewHidden,
        Capability::ViewProtected,
    ] {
        assert!(set.has_capability(&admins, cap));
    }
}

#[test]
fn unknown_capability_is_reported() {
    let r = CapabilitySet::from_groups(&groups(&[("a", "Admin"), ("b", "ViewHidden,Nonsense,Alsobad")]));
    assert_eq!(r.err(), Some("Nonsense".to_string()));
    let r = CapabilitySet::from_groups(&groups(&[("a", "Admin,")]));
    assert_eq!(r.err(), Some(String::new()));
    let r = CapabilitySet::from_groups(&groups(&[("siko", "ManageSitzungen,ManageÄntrage")]));
    assert_eq!(r.err(), Some("ManageÄntrage".to_string()));
}

#[test]
fn no_groups_configured_means_no_capability() {
    let set = CapabilitySet::from_groups(&Vec::new()).unwrap();
    let u = user(&["anything"], 0);
    assert!(!u.has_capability(&set, Capability::ViewHidden));
}

#[test]
fn gate_forwards_only_capable_users() {
    let set = CapabilitySet::from_groups(&groups(&[("persons", "ManagePersons")])).unwrap();
    let ok = user(&["persons"], 0);
    let no = user(&["nobody"], 0);
    assert_eq!(capability_gate(Some(&ok), &set, Capability::ManagePersons), GateDecision::Forward);
    assert_eq!(capability_gate(Some(&no), &set, Capability::ManagePersons), GateDecision::Unauthorized);
    assert_eq!(capability_gate(None, &set, Capability::ManagePersons), GateDecision::Unauthorized);
}

#[test]
fn rat_membership() {
    assert!(user(&["x", "FS_Rat_Informatik"], 0).is_rat());
    assert!(!user(&["FS_Rat"], 0).is_rat());
}

#[test]
fn person_user_name_joins_source_and_subject() {
    assert_eq!(user(&[], 0).person_user_name("hhu"), "hhu-1234");
}

#[test]
fn expiry_checks() {
    let u = user(&[], 100);
    assert!(u.is_unexpired(99));
    assert!(!u.is_unexpired(100));
    assert!(u.expires_soon(71));
    assert!(!u.expires_soon(70));
    assert_eq!(exp_default(1000), 1300);
}

#[test]
fn bearer_tokens() {
    assert_eq!(token_from_auth_header(b"Bearer abc.def"), Some("abc.def".to_string()));
    assert_eq!(token_from_auth_header(b"  Bearer \t abc  "), Some("abc".to_string()));
    assert_eq!(token_from_auth_header(b"bearer abc"), None);
    assert_eq!(token_from_auth_header(b"Bearer"), None);
    assert_eq!(token_from_auth_header(b"Bearer a b"), None);
    assert_eq!(token_from_auth_header(b"Basic abc"), None);
    assert_eq!(token_from_auth_header(b"Bearer ab\x7f"), None);
    assert_eq!(token_from_auth_header(b"Bearer \xc3\xa4"), None);
}

#[test]
fn acquire_plan_prefers_valid_cookie_user() {
    let m = AuthMiddle.new_transform(());
    match m.acquire_plan(Some(user(&[], 1000)), 100, Some(b"Bearer t"), true, Some("a")) {
        UserAcquisition::Keep(u) => assert_eq!(u.exp, 1000),
        other => panic!("unexpected {:?}", other),
    }
    assert!(matches!(
        m.acquire_plan(Some(user(&[], 110)), 100, None, false, None),
        UserAcquisition::Refresh
    ));
}

#[test]
fn acquire_plan_without_cookie_user() {
    let m = AuthMiddle.new_transform(());
    match m.acquire_plan(Some(user(&[], 50)), 100, Some(b"Bearer tok"), true, None) {
        UserAcquisition::FetchWithToken(t) => assert_eq!(t, "tok"),
        other => panic!("unexpected {:?}", other),
    }
    assert!(matches!(
        m.acquire_plan(None, 100, Some(b"Token tok"), true, Some("a")),
        UserAcquisition::Anonymous
    ));
    assert!(matches!(m.acquire_plan(None, 100, None, true, Some("a")), UserAcquisition::Refresh));
    match m.acquire_plan(None, 100, None, false, Some("acc")) {
        UserAcquisition::FetchWithToken(t) => assert_eq!(t, "acc"),
        other => panic!("unexpected {:?}", other),
    }
    assert!(matches!(m.acquire_plan(None, 100, None, false, None), UserAcquisition::Anonymous));
}

#[test]
fn renewal_headers_after_refresh() {
    let m = AuthMiddle.new_transform(());
    let lines = m.renewal_headers(Some("r1"), None, Some("u\u{7f}"));
    assert_eq!(lines, vec!["refresh_token=r1; SameSite=None; Path=/; Secure; Max-Age=2592000;".to_string()]);
    let lines = m.renewal_headers(Some("r"), Some("a"), Some("u"));
    assert_eq!(lines.len(), 3);
    assert_eq!(lines[1], "access_token=a; SameSite=None; Path=/; Secure; Max-Age=2592000;");
    assert_eq!(lines[2], "user=u; SameSite=None; Path=/; Secure; Max-Age=2592000;");
}

#[test]
fn refresh_steps() {
    assert_eq!(refresh_start(Some("rt"), true).unwrap(), "rt");
    match refresh_start(None, true) {
        Err(Error::Message(m)) => assert_eq!(m, "Could not access refresh token"),
        _ => panic!(),
    }
    match refresh_start(Some("rt"), false) {
        Err(Error::Message(m)) => assert_eq!(m, "oauth client is not configured"),
        _ => panic!(),
    }
    assert_eq!(refresh_token_after_exchange(Some("new")), "new");
    assert_eq!(refresh_token_after_exchange(None), "/");
    assert_eq!(refresh_token_after_login(None), "");
}

#[test]
fn cookie_header_rebuilt_after_refresh() {
    let r = rebuild_cookie_header(Some(b"theme=dark;refresh_token=;access_token=..;"), "R", "A", "U").unwrap();
    assert_eq!(r, "theme=dark;refresh_token=R;access_token=A;user=U");
    let r = rebuild_cookie_header(Some(b"user=abc; x=1"), "R", "A", "U").unwrap();
    assert_eq!(r, " x=1refresh_token=R;access_token=A;user=U");
    let r = rebuild_cookie_header(Some(b"refresh_token=old; theme=dark;access_token=a-1;"), "R", "A", "U").unwrap();
    assert_eq!(r, " theme=dark;refresh_token=R;access_token=A;user=U");
    match rebuild_cookie_header(None, "R", "A", "U") {
        Err(Error::Message(m)) => assert_eq!(m, "Could not read Cookies"),
        _ => panic!(),
    }
    match rebuild_cookie_header(Some(b"x=\x01"), "R", "A", "U") {
        Err(Error::Message(m)) => assert_eq!(m, "ToStrError { _priv: () }"),
        _ => panic!(),
    }
    match rebuild_cookie_header(Some(b"x=1;"), "R\u{7f}", "A", "U") {
        Err(Error::Message(m)) => assert_eq!(m, "InvalidHeaderValue"),
        _ => panic!(),
    }
}

#[test]
fn csrf_check() {
    assert!(check_csrf("abc", Some("abc")).is_ok());
    assert_eq!(check_csrf("abc", Some("abd")).unwrap_err(), "wrong csrf state");
    assert_eq!(check_csrf("abc", None).unwrap_err(), "missing csrf token");
}

#[test]
fn login_paths_and_redirects() {
    assert_eq!(path_or_root(None), "/");
    assert_eq!(path_or_root(Some("/x".to_string())), "/x");
    assert_eq!(
        callback_redirect_url("https", "fscs.hhu.de", "/de/"),
        "https://fscs.hhu.de/auth/callback/?path=/de/"
    );
}

#[test]
fn first_login_creates_person() {
    let u = user(&[], 0);
    assert_eq!(person_to_create(&u, "hhu", true), None);
    assert_eq!(
        person_to_create(&u, "hhu", false),
        Some(("Ada Lovelace".to_string(), "hhu-1234".to_string()))
    );
}

#[test]
fn person_of_user() {
    let p = Person {
        id: 7,
        first_name: "A".to_string(),
        last_name: "B".to_string(),
        user_name: "hhu-1".to_string(),
        matrix_id: None,
    };
    assert_eq!(person_for_user(Some(p)).unwrap().id, 7);
    match person_for_user(None) {
        Err(Error::Message(m)) => {
            assert_eq!(m, "no corresponding person found in database, try logging out and back in again")
        }
        _ => panic!(),
    }
}

#[test]
fn session_refresh_rule() {
    assert!(needs_refresh(true, None, 0));
    assert!(!needs_refresh(false, None, 0));
    assert!(needs_refresh(false, Some(29), 0));
    assert!(!needs_refresh(true, Some(30), 0));
}

#[test]
fn session_cookie_header_rewrite() {
    let r = rewrite_cookie_header(b"foo=1; refresh_token=x; username=bob; bar", "R", "A", "U").unwrap();
    assert_eq!(r, "refresh_token=R; access_token=A; user=U;foo=1; bar;");
    assert_eq!(rewrite_cookie_header(b"a=\x02", "R", "A", "U"), Err(RewriteFailure::NotText));
    assert_eq!(rewrite_cookie_header(b"a=1", "R\u{7f}", "A", "U"), Err(RewriteFailure::InvalidValue));
}

#[test]
fn session_renewal_uses_refresh_token_name() {
    let lines = session_renewal_lines(Some("r"), Some("a"), None);
    assert_eq!(
        lines,
        vec!["refresh_token=r; SameSite=None; Path=/".to_string(), "refresh_token=a; SameSite=None; Path=/".to_string()]
    );
}

#[test]
fn unauthorised_requests_go_to_login() {
    assert_eq!(login_location("/protected/x").unwrap(), "/auth/login/?path=/protected/x");
    match login_location("/\u{7f}") {
        Err(Error::Message(m)) => assert_eq!(m, "Invalid Path"),
        _ => panic!(),
    }
}

#[test]
fn session_user_sources() {
    assert!(matches!(session_user(true, Some("a")), SessionUser::Cookie));
    match session_user(false, Some("a")) {
        SessionUser::FetchWithToken(t) => assert_eq!(t, "a"),
        _ => panic!(),
    }
    assert!(matches!(session_user(false, None), SessionUser::Unauthorized));
}

#[test]
fn after_the_search_for_the_user() {
    let m = AuthMiddle.new_transform(());
    let a = m.settle(&UserAcquisition::Refresh, Some(1), None::<i32>);
    assert_eq!((a.user, a.renew_cookies), (None, true));
    let a = m.settle(&UserAcquisition::Refresh, None, Some(2));
    assert_eq!((a.user, a.renew_cookies), (Some(2), true));
    let a = m.settle(&UserAcquisition::FetchWithToken("t".to_string()), None, Some(3));
    assert_eq!((a.user, a.renew_cookies), (Some(3), false));
    let a = m.settle(&UserAcquisition::Keep(user(&[], 10)), Some(4), None);
    assert_eq!((a.user, a.renew_cookies), (Some(4), false));
    let a = m.settle(&UserAcquisition::Anonymous, Some(5), Some(6));
    assert_eq!((a.user, a.renew_cookies), (None, false));
}

#[test]
fn refresh_renews_all_three_cookies() {
    let m = AuthMiddle.new_transform(());
    let lines = m.renewal_headers(Some("r"), Some("a"), Some("u"));
    assert_eq!(
        lines,
        vec![
            "refresh_token=r; SameSite=None; Path=/; Secure; Max-Age=2592000;".to_string(),
            "access_token=a; SameSite=None; Path=/; Secure; Max-Age=2592000;".to_string(),
            "user=u; SameSite=None; Path=/; Secure; Max-Age=2592000;".to_string(),
        ]
    );
}
