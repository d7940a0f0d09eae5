use icsutils::db::{IcsCal, MergeConf};
use icsutils::service::{
    calendar_reply, check_password_and_apply, check_root_password_and_apply, find_protected_doc, created_reply, deleted_reply, ics_path, init_db_reply,
    merge_calendars, new_merge_conf, prepare_merge_conf, random_url_from, reply_for_verdict,
    root_password_refusal, lookup_reply, AuthRequest, CalAction, Reply, RootAction, Status,
};

fn plain(status: Status, body: &str) -> Reply {
    Reply { status, body: body.to_string(), is_calendar: false }
}

fn auth(p: Option<&str>) -> AuthRequest {
    AuthRequest { password: p.map(|s| s.to_string()) }
}

#[test]
fn root_password_checks() {
    let root = "s3cret".to_string();
    assert_eq!(
        root_password_refusal(&root, &auth(None)),
        Some(plain(Status::BadRequest, "Root password must be provided to list all the db"))
    );
    assert_eq!(
        root_password_refusal(&root, &auth(Some("nope"))),
        Some(plain(Status::BadRequest, "Wrong Root password"))
    );
    assert_eq!(root_password_refusal(&root, &auth(Some("s3cret"))), None);
}

#[test]
fn init_replies() {
    assert_eq!(init_db_reply(Ok("DB initialized".to_string())), plain(Status::Success, "DB initialized"));
    assert_eq!(init_db_reply(Err("io".to_string())), plain(Status::BadRequest, "io"));
}

#[test]
fn verdict_replies() {
    let url = "u.ics".to_string();
    let doc = "{}".to_string();
    assert_eq!(
        reply_for_verdict(None, url.clone(), doc.clone(), CalAction::Get),
        plain(Status::BadRequest, "Password check Error")
    );
    assert_eq!(
        reply_for_verdict(Some(false), url.clone(), doc.clone(), CalAction::Delete),
        plain(Status::BadRequest, "Wrong Password")
    );
    assert_eq!(reply_for_verdict(Some(true), url, doc, CalAction::Get), plain(Status::Success, "{}"));
}

#[test]
fn deletion_replies() {
    assert_eq!(deleted_reply(Some("u.ics".to_string())), plain(Status::Success, "Calendar u.ics deleted"));
    assert_eq!(deleted_reply(None), plain(Status::NotFound, "No merge config struct found"));
}

#[test]
fn creation_replies() {
    assert_eq!(created_reply(Ok("/u.ics".to_string())), plain(Status::Created, "/u.ics"));
    assert_eq!(
        created_reply(Err("disk \"full\"".to_string())),
        plain(Status::BadRequest, "Error /\"disk \\\"full\\\"\"")
    );
}

#[test]
fn calendar_and_path() {
    let r = calendar_reply("BEGIN:VCALENDAR".to_string());
    assert_eq!(r, Reply { status: Status::Success, body: "BEGIN:VCALENDAR".to_string(), is_calendar: true });
    assert_eq!(ics_path("team"), "team.ics");
}

#[test]
fn random_urls() {
    assert_eq!(random_url_from(0), "0.ics");
    assert_eq!(random_url_from(255), "ff.ics");
    assert_eq!(random_url_from(0x1234_abcd), "1234abcd.ics");
    assert_ne!(random_url_from(1), random_url_from(16));
}

fn request(url: &str) -> MergeConf {
    MergeConf {
        name: "Team".to_string(),
        url: url.to_string(),
        password: "pw".to_string(),
        calendars: vec![IcsCal { name: "A".to_string(), is_private: true, ics_url: "http://a".to_string() }],
    }
}

#[test]
fn new_conf_keeps_or_makes_url() {
    let kept = new_merge_conf(request("mine.ics"), 7, "hash".to_string());
    assert_eq!(kept.url, "mine.ics");
    assert_eq!(kept.password, "hash");
    assert_eq!(kept.name, "Team");
    let made = new_merge_conf(request(""), 0xabc, "hash".to_string());
    assert_eq!(made.url, "abc.ics");
    assert_eq!(made.calendars, request("").calendars);
}

#[test]
fn creation_password_opens_the_conf() {
    let conf = prepare_merge_conf(request("mine.ics")).unwrap();
    assert_eq!(conf.url, "mine.ics");
    assert_ne!(conf.password, "pw");
    let granted = check_password_and_apply(
        conf.url.clone(),
        "doc".to_string(),
        "pw",
        &conf.password,
        CalAction::Get,
    );
    assert_eq!(granted, plain(Status::Success, "doc"));
    let refused = check_password_and_apply(conf.url.clone(), "doc".to_string(), "other", &conf.password, CalAction::Get);
    assert_eq!(refused, plain(Status::BadRequest, "Wrong Password"));
    let broken = check_password_and_apply(conf.url, "doc".to_string(), "pw", "not a hash", CalAction::Get);
    assert_eq!(broken, plain(Status::BadRequest, "Password check Error"));
}

#[test]
fn prepared_random_url_ends_with_ics() {
    let conf = prepare_merge_conf(request("")).unwrap();
    assert!(conf.url.ends_with(".ics"));
    assert!(conf.url.len() > 4);
    assert!(conf.url[..conf.url.len() - 4].chars().all(|c| c.is_ascii_hexdigit() && !c.is_ascii_uppercase()));
}

#[test]
fn merge_of_two_calendars() {
    let conf = MergeConf {
        name: "All".to_string(),
        url: "all.ics".to_string(),
        password: String::new(),
        calendars: vec![
            IcsCal { name: "Private".to_string(), is_private: true, ics_url: String::new() },
            IcsCal { name: "Public".to_string(), is_private: false, ics_url: String::new() },
        ],
    };
    let contents = vec![
        "BEGIN:VCALENDAR\nBEGIN:VEVENT\nSUMMARY:Secret\nDESCRIPTION:d\nEND:VEVENT\nEND:VCALENDAR\n".to_string(),
        "BEGIN:VCALENDAR\nVERSION:2.0\nBEGIN:VEVENT\nSUMMARY:Open\nEND:VEVENT\nEND:VCALENDAR\n".to_string(),
    ];
    assert_eq!(
        merge_calendars(&conf, &contents),
        "BEGIN:VCALENDAR\nX-WR-CALNAME:All\nBEGIN:VEVENT\nSUMMARY:Private\nEND:VEVENT\nBEGIN:VEVENT\nSUMMARY:Open\nEND:VEVENT\nEND:VCALENDAR"
    );
}

#[test]
fn merge_of_no_calendar() {
    let conf = MergeConf { name: "None".to_string(), ..MergeConf::default() };
    assert_eq!(merge_calendars(&conf, &Vec::new()), "BEGIN:VCALENDAR\nX-WR-CALNAME:None\nEND:VCALENDAR");
}

#[test]
fn empty_password_is_a_valid_password() {
    let mut req = request("e.ics");
    req.password = String::new();
    let conf = prepare_merge_conf(req).unwrap();
    let granted = check_password_and_apply(conf.url.clone(), "doc".to_string(), "", &conf.password, CalAction::Get);
    assert_eq!(granted, plain(Status::Success, "doc"));
}

#[test]
fn protected_action_needs_a_password() {
    assert_eq!(
        find_protected_doc("x.ics", &auth(None)),
        Err(plain(Status::BadRequest, "A password must be provided to create a new structure"))
    );
}

#[test]
fn root_actions_refused_without_root_password() {
    let root = "root".to_string();
    assert_eq!(
        check_root_password_and_apply(&root, &auth(Some("guess")), RootAction::InitDb),
        plain(Status::BadRequest, "Wrong Root password")
    );
    assert_eq!(
        check_root_password_and_apply(&root, &auth(None), RootAction::ListDb),
        plain(Status::BadRequest, "Root password must be provided to list all the db")
    );
}

#[test]
fn stored_password_is_a_cost_4_bcrypt_hash() {
    let conf = prepare_merge_conf(request("h.ics")).unwrap();
    assert_eq!(conf.password.len(), 60);
    assert!(conf.password.starts_with("$2b$04$"));
    assert!(conf.password[7..]
        .chars()
        .all(|c| c == '.' || c == '/' || c.is_ascii_alphanumeric()));
}

#[test]
fn lookup_replies() {
    assert_eq!(lookup_reply(Some("doc".to_string())), Ok("doc".to_string()));
    assert_eq!(lookup_reply(None), Err(plain(Status::NotFound, "No merge config struct found")));
}
