use fscs_web::instant::{Day, Instant};
use fscs_web::web::api::antrag::{
    access_rejection, attachment_file_name, check_upload, check_upload_size, content_disposition,
    creator_access, upload_access, AntragAccess, UploadAntrag, CreateAntragParams, UpdateAntragParams,
};
use fscs_web::web::api::door_state::{validate_doorstate_params, GetDoorStateParams};
use fscs_web::web::api::persons::{
    validate_abmeldung_params, visible_person, visible_persons, AbmeldungParams,
    CreatePersonParams, Person, PersonsByRoleParams, PublicPerson, RoleParams, UpdatePersonParams,
};
use fscs_web::web::api::roles::RoleParams as RoleNameParams;
use fscs_web::web::api::sitzungen::{
    template_calendars, validate_sitzung_between_params, CreateSitzungParams, CreateTopParams,
    SitzungBetweenParams, UpdateSitzungParams, UpdateTopParams,
};
use fscs_web::web::sitzungen::{
    CreateSitzungParams as OldCreateSitzungParams, CreateTopParams as OldCreateTopParams,
    UpdateSitzungParams as OldUpdateSitzungParams, UpdateTopParams as OldUpdateTopParams,
};
use fscs_web::web::auth::capability::CapabilitySet;
use fscs_web::web::auth::User;
use fscs_web::web::calendar::CalendarEvent;
use fscs_web::web::topmanager::{top_for_new_antrag, RestStatus as TopStatus};
use fscs_web::web::{Body, Error, RestStatus};

fn person(id: u128) -> Person {
    Person {
        id,
        first_name: "Grace".to_string(),
        last_name: "Hopper".to_string(),
        user_name: "hhu-grace".to_string(),
        matrix_id: Some("@grace:hhu.de".to_string()),
    }
}

#[test]
fn anonymous_requesters_see_names_only() {
    let p = PublicPerson::public_from_person(person(1));
    assert_eq!((p.id, p.first_name.as_str(), p.last_name.as_str()), (1, "Grace", "Hopper"));
    assert_eq!(p.user_name, None);
    assert_eq!(p.matrix_id, None);
}

#[test]
fn logged_in_requesters_see_user_names() {
    let p = PublicPerson::private_from_person(person(2));
    assert_eq!(p.user_name.as_deref(), Some("hhu-grace"));
    assert_eq!(p.matrix_id.as_deref(), Some("@grace:hhu.de"));
}

fn requester(groups: &[&str]) -> User {
    User {
        exp: 0,
        name: "Ada".to_string(),
        preferred_username: "ada".to_string(),
        sub: "1".to_string(),
        groups: groups.iter().map(|g| g.to_string()).collect(),
    }
}

#[test]
fn visibility_of_lists_and_single_persons() {
    let caps = CapabilitySet::from_groups(&vec![
        ("fsr".to_string(), "ManagePersons".to_string()),
        ("siko".to_string(), "ManageSitzungen".to_string()),
    ])
    .unwrap();
    let v = visible_persons(None, &caps, vec![person(1), person(2)]);
    assert_eq!(v.iter().map(|p| p.id).collect::<Vec<_>>(), vec![1, 2]);
    assert!(v.iter().all(|p| p.user_name.is_none()));
    let logged_in = requester(&["siko"]);
    let v = visible_persons(Some(&logged_in), &caps, vec![person(3)]);
    assert_eq!(v[0].user_name, None);
    assert_eq!(v[0].matrix_id, None);
    let manager = requester(&["fsr"]);
    let v = visible_persons(Some(&manager), &caps, vec![person(3)]);
    assert_eq!(v[0].user_name.as_deref(), Some("hhu-grace"));
    assert!(visible_person(Some(&manager), &caps, None).is_none());
    let p = visible_person(Some(&logged_in), &caps, Some(person(4))).unwrap();
    assert_eq!((p.id, p.user_name), (4, None));
}

#[test]
fn person_params_need_non_empty_texts() {
    let ok = CreatePersonParams {
        first_name: "a".to_string(),
        last_name: "b".to_string(),
        user_name: "c".to_string(),
        matrix_id: None,
    };
    assert!(ok.validate().is_ok());
    let bad = CreatePersonParams {
        first_name: String::new(),
        last_name: "b".to_string(),
        user_name: "c".to_string(),
        matrix_id: Some(String::new()),
    };
    assert_eq!(bad.validate().unwrap_err(), vec!["first_name".to_string(), "matrix_id".to_string()]);
    let upd = UpdatePersonParams { first_name: None, last_name: Some(String::new()), user_name: None, matrix_id: None };
    assert_eq!(upd.validate().unwrap_err(), vec!["last_name".to_string()]);
    let upd = UpdatePersonParams { first_name: None, last_name: None, user_name: None, matrix_id: None };
    assert!(upd.validate().is_ok());
    assert!(RoleParams { role: String::new() }.validate().is_err());
    assert!(PersonsByRoleParams { role: "rat".to_string() }.validate().is_ok());
    assert_eq!(RoleNameParams { name: String::new() }.validate().unwrap_err(), vec!["name".to_string()]);
}

#[test]
fn ranges_must_not_end_before_they_start() {
    let e = validate_abmeldung_params(&AbmeldungParams {
        start: Day { days_from_ce: 10 },
        end: Day { days_from_ce: 9 },
    })
    .unwrap_err();
    assert_eq!((e.code.as_str(), e.message.as_str()), ("abmeldung_params", "start must be before end"));
    assert!(validate_abmeldung_params(&AbmeldungParams { start: Day { days_from_ce: 9 }, end: Day { days_from_ce: 9 } }).is_ok());
    let t = |secs, nanos| Instant { secs, nanos };
    assert!(validate_sitzung_between_params(&SitzungBetweenParams { start: t(5, 1), end: t(5, 0) }).is_err());
    assert!(validate_sitzung_between_params(&SitzungBetweenParams { start: t(5, 0), end: t(5, 0) }).is_ok());
    assert_eq!(
        validate_doorstate_params(&GetDoorStateParams { start: t(6, 0), end: t(5, 999) }).unwrap_err().code,
        "doorstate_params"
    );
}

#[test]
fn antrag_editing_rights() {
    let creators = vec![1u128, 2];
    assert_eq!(creator_access(true, None, 9), AntragAccess::Allowed);
    assert_eq!(creator_access(false, None, 1), AntragAccess::NotFound);
    assert_eq!(creator_access(false, Some(&creators), 2), AntragAccess::Allowed);
    assert_eq!(creator_access(false, Some(&creators), 3), AntragAccess::NotCreator);
    assert_eq!(upload_access(true, None, 1), AntragAccess::NotFound);
    assert_eq!(upload_access(true, Some(&creators), 9), AntragAccess::Allowed);
    assert_eq!(upload_access(false, Some(&creators), 9), AntragAccess::NotCreator);
}

#[test]
fn refused_antrag_changes() {
    assert!(access_rejection::<()>(AntragAccess::Allowed).is_none());
    assert!(matches!(access_rejection::<()>(AntragAccess::NotFound), Some(RestStatus::NotFound)));
    match access_rejection::<()>(AntragAccess::NotCreator) {
        Some(RestStatus::Status(401, m)) => assert_eq!(m, "you are not a creator of this antrag"),
        _ => panic!(),
    }
}

#[test]
fn upload_sizes() {
    assert_eq!(check_upload_size(0, 10).unwrap_err(), "The Provided file was empty");
    assert_eq!(check_upload_size(0, 0).unwrap_err(), "The Provided file was empty");
    assert_eq!(
        check_upload_size(1025, 1024).unwrap_err(),
        "The uploaded file is too large. Maximum size is 1024 bytes."
    );
    assert_eq!(
        check_upload_size(1, 0).unwrap_err(),
        "The uploaded file is too large. Maximum size is 0 bytes."
    );
    assert!(check_upload_size(1024, 1024).is_ok());
}

#[test]
fn attachment_names() {
    assert_eq!(attachment_file_name(None), "null");
    assert_eq!(attachment_file_name(Some("antrag.pdf")), "antrag.pdf");
    assert_eq!(content_disposition("antrag.pdf"), "attachment; filename=\"antrag.pdf\"");
}

#[test]
fn antrag_params_checks() {
    let p = CreateAntragParams { begruendung: String::new(), antragstext: "t".to_string(), titel: String::new() };
    assert_eq!(p.validate().unwrap_err(), vec!["begründung".to_string(), "titel".to_string()]);
    let u = UpdateAntragParams { begruendung: None, antragstext: Some("x".to_string()), titel: None };
    assert!(u.validate().is_ok());
}

#[test]
fn rest_status_answers() {
    let r = RestStatus::Success(Some(5)).respond_to();
    assert!(r.status == 200 && matches!(r.body, Body::Json(5)));
    let r = RestStatus::Created(Some(6)).respond_to();
    assert!(r.status == 201 && matches!(r.body, Body::Json(6)));
    for s in [RestStatus::<u8>::Success(None), RestStatus::Created(None), RestStatus::NotFound] {
        let r = s.respond_to();
        assert_eq!(r.status, 404);
        assert!(matches!(r.body, Body::Text(ref m) if m == "Not Found"));
    }
    let r = RestStatus::<u8>::BadRequest("bad".to_string()).respond_to();
    assert!(r.status == 400 && matches!(r.body, Body::Text(ref m) if m == "bad"));
    let r = RestStatus::<u8>::Status(418, "tea".to_string()).respond_to();
    assert!(r.status == 418 && matches!(r.body, Body::Text(ref m) if m == "tea"));
}

#[test]
fn topmanager_answers() {
    let s: TopStatus<u8, String> = TopStatus::created_from_result(Ok(Ok(1)));
    let r = s.respond_to();
    assert!(r.status == 201 && matches!(r.body, Body::Json(1)));
    let s: TopStatus<u8, String> = TopStatus::ok_from_result(Ok(Err("serde".to_string())));
    let r = s.respond_to();
    assert!(r.status == 500 && matches!(r.body, Body::Text(ref m) if m == "Internal Server Error"));
    let s: TopStatus<u8, String> = TopStatus::ok_from_result(Ok(Ok(2)));
    assert_eq!(s.respond_to().status, 200);
    let r = TopStatus::<u8, String>::NotFound.respond_to();
    assert!(r.status == 404 && matches!(r.body, Body::Text(ref m) if m == "Not Found"));
    assert_eq!(top_for_new_antrag("Antrag", Some(3)), Some(("Antrag".to_string(), 3)));
    assert_eq!(top_for_new_antrag("Antrag", None), None);
}

fn event(s: &str) -> CalendarEvent {
    CalendarEvent { summary: Some(s.to_string()), location: None, description: None, start: None, end: None }
}

#[test]
fn template_calendars_pair_names_with_events() {
    let names = vec!["a".to_string(), "b".to_string()];
    let v = template_calendars(names.clone(), vec![Ok(Some(vec![event("x")])), Ok(Some(Vec::new()))])
        .unwrap()
        .unwrap();
    assert_eq!(v.len(), 2);
    assert_eq!(v[0].name, "a");
    assert_eq!(v[0].events[0].summary.as_deref(), Some("x"));
    assert!(template_calendars(names.clone(), vec![Ok(None), Err(Error::Message("e".to_string()))])
        .unwrap()
        .is_none());
    match template_calendars(names, vec![Ok(Some(Vec::new())), Err(Error::Message("e".to_string()))]) {
        Err(Error::Message(m)) => assert_eq!(m, "e"),
        _ => panic!(),
    }
}

fn instant(secs: i64) -> Instant {
    Instant { secs, nanos: 0 }
}

#[test]
fn sitzung_and_top_bodies_need_names_and_locations() {
    let create = |location: &str| CreateSitzungParams {
        datetime: instant(1_700_000_000),
        location: location.to_string(),
        kind: "normal",
        antragsfrist: instant(1_699_000_000),
        legislative_period: 7,
    };
    assert_eq!(create("25.12.O2").validate(), Ok(()));
    assert_eq!(create("").validate(), Err(vec!["location".to_string()]));

    let top = |name: &str| CreateTopParams { name: name.to_string(), kind: "normal", inhalt: String::new() };
    assert_eq!(top("Berichte").validate(), Ok(()));
    assert_eq!(top("").validate(), Err(vec!["name".to_string()]));

    let update = |location: Option<&str>| UpdateSitzungParams::<&str> {
        datetime: None,
        location: location.map(str::to_string),
        kind: None,
        antragsfrist: None,
        legislative_period: None,
    };
    assert_eq!(update(None).validate(), Ok(()));
    assert_eq!(update(Some("Raum 25.12.O2")).validate(), Ok(()));
    assert_eq!(update(Some("")).validate(), Err(vec!["location".to_string()]));

    let update_top = |name: Option<&str>| UpdateTopParams::<&str> {
        name: name.map(str::to_string),
        kind: None,
        inhalt: None,
        weight: Some(3),
    };
    assert_eq!(update_top(None).validate(), Ok(()));
    assert_eq!(update_top(Some("")).validate(), Err(vec!["name".to_string()]));
}

#[test]
fn older_sitzung_and_top_bodies_need_names_and_locations() {
    let create = OldCreateSitzungParams { datetime: instant(0), location: String::new(), kind: 1u8 };
    assert_eq!(create.validate(), Err(vec!["location".to_string()]));
    let top = OldCreateTopParams { name: "Post".to_string(), kind: 1u8, inhalt: Some(serde_json::Value::Null) };
    assert_eq!(top.validate(), Ok(()));
    let update = OldUpdateSitzungParams::<u8> { datetime: None, location: Some(String::new()), kind: None };
    assert_eq!(update.validate(), Err(vec!["location".to_string()]));
    let update_top = OldUpdateTopParams::<u8> { name: Some("Sonstiges".to_string()), kind: None, inhalt: None, weight: None };
    assert_eq!(update_top.validate(), Ok(()));
}

#[test]
fn upload_checks_in_route_order() {
    let upload = |size: usize| UploadAntrag { size, file_name: Some("a.pdf".to_string()) };
    let creators = vec![7u128];
    let r: Option<RestStatus<()>> = check_upload(false, None, 7, &upload(0), 10);
    assert!(matches!(r, Some(RestStatus::NotFound)));
    let r: Option<RestStatus<()>> = check_upload(false, Some(&creators), 8, &upload(0), 10);
    assert!(matches!(r, Some(RestStatus::Status(401, _))));
    let r: Option<RestStatus<()>> = check_upload(false, Some(&creators), 7, &upload(0), 10);
    assert!(matches!(r, Some(RestStatus::BadRequest(m)) if m == "The Provided file was empty"));
    let r: Option<RestStatus<()>> = check_upload(true, Some(&creators), 8, &upload(11), 10);
    assert!(matches!(r, Some(RestStatus::BadRequest(m)) if m == "The uploaded file is too large. Maximum size is 10 bytes."));
    let r: Option<RestStatus<()>> = check_upload(false, Some(&creators), 7, &upload(10), 10);
    assert!(r.is_none());
}
