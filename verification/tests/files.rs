use fscs_web::web::auth::capability::CapabilitySet;
use fscs_web::web::auth::User;
use fscs_web::web::files::{
    after_open_failure, cache_policy, content_class, is_safe_sub_path, localized_location,
    CacheDirective, ContentClass, OpenFailure,
};

fn user(groups: &[&str]) -> User {
    User {
        exp: 0,
        name: String::new(),
        preferred_username: String::new(),
        sub: String::new(),
        groups: groups.iter().map(|g| g.to_string()).collect(),
    }
}

fn caps() -> CapabilitySet {
    CapabilitySet::from_groups(&vec![
        ("rat".to_string(), "ViewProtected".to_string()),
        ("helfer".to_string(), "ViewHidden".to_string()),
        ("admins".to_string(), "Admin".to_string()),
    ])
    .unwrap()
}

#[test]
fn content_folder_by_capability() {
    let c = caps();
    assert_eq!(content_class(Some(&user(&["rat"])), &c), ContentClass::Protected);
    assert_eq!(content_class(Some(&user(&["helfer"])), &c), ContentClass::Hidden);
    assert_eq!(content_class(Some(&user(&["admins"])), &c), ContentClass::Protected);
    assert_eq!(content_class(Some(&user(&["x"])), &c), ContentClass::Public);
    assert_eq!(content_class(None, &c), ContentClass::Public);
}

#[test]
fn paths_may_not_leave_the_content_folder() {
    assert!(is_safe_sub_path("de/index.html"));
    assert!(is_safe_sub_path(""));
    assert!(is_safe_sub_path("./a"));
    assert!(!is_safe_sub_path("../etc/passwd"));
    assert!(!is_safe_sub_path("de/../../x"));
    assert!(!is_safe_sub_path("/etc/passwd"));
    assert!(!is_safe_sub_path("/"));
    assert!(!is_safe_sub_path(".."));
    assert!(!is_safe_sub_path("de/.."));
    assert!(is_safe_sub_path("de/..x/index.html"));
}

#[test]
fn missing_files_and_redirects() {
    assert_eq!(after_open_failure(true), OpenFailure::TryRedirect);
    assert_eq!(after_open_failure(false), OpenFailure::NotFoundPage);
    assert_eq!(localized_location("impressum"), "/de/impressum");
}

#[test]
fn caching_of_served_files() {
    let html = cache_policy(true);
    assert!(!html.last_modified && html.etag);
    assert_eq!(
        html.directives,
        vec![CacheDirective::Private, CacheDirective::MustRevalidate, CacheDirective::MaxAge(0)]
    );
    let asset = cache_policy(false);
    assert!(!asset.last_modified && !asset.etag);
    assert_eq!(asset.directives, vec![CacheDirective::Immutable, CacheDirective::MaxAge(31536000)]);
}
