//! The decisions of the web service: who may read, delete or reset the stored
//! configurations, what each request is answered, how a new configuration is
//! prepared, and how the fetched calendars are merged into one.
//!
//! The web server itself (routing, HTTP fetching, JSON) stands around this
//! module; it hands these functions plain values and sends back their replies.
use rand::Rng;
use vstd::prelude::*;
use vstd::string::*;

use crate::db::{self, IcsCal, MergeConf};
use crate::db::sled2::{
    listed_by_store, store_was_emptied, store_holds, store_removed, store_stored,
    DB_INITIALIZED,
};
use crate::text::{hex_digits, law_hex_digits_injective, push_lower_hex};
use crate::{parse_calendar_text, parsed_calendar, BEGIN_VCALENDAR, END_VCALENDAR, NEW_LINE, X_WR_CALNAME};

verus! {

/// The status of a reply.
#[derive(Debug, Clone, Copy, PartialEq, Eq, Structural)]
pub enum Status {
    Success,
    Created,
    BadRequest,
    NotFound,
}

/// A reply to a request: its status, its body, and whether the body is a
/// calendar (`text/calendar`).
#[derive(Debug, Clone, PartialEq)]
pub struct Reply {
    pub status: Status,
    pub body: String,
    pub is_calendar: bool,
}

/// The query of a request that needs a password.
#[derive(Debug, Clone, PartialEq)]
pub struct AuthRequest {
    pub password: Option<String>,
}

/// The actions reserved to the holder of the root password.
#[derive(Debug, Clone, Copy, PartialEq, Eq, Structural)]
pub enum RootAction {
    /// Empty the store.
    InitDb,
    /// List the whole store.
    ListDb,
}

/// The actions on one configuration, reserved to the holder of its password.
#[derive(Debug, Clone, Copy, PartialEq, Eq, Structural)]
pub enum CalAction {
    /// Read the configuration.
    Get,
    /// Delete the configuration.
    Delete,
}

pub const ROOT_PASSWORD_MISSING: &'static str = "Root password must be provided to list all the db";
pub const WRONG_ROOT_PASSWORD: &'static str = "Wrong Root password";
pub const PASSWORD_MISSING: &'static str = "A password must be provided to create a new structure";
pub const NO_MERGE_CONF: &'static str = "No merge config struct found";
pub const WRONG_PASSWORD: &'static str = "Wrong Password";
pub const PASSWORD_CHECK_ERROR: &'static str = "Password check Error";
pub const ICS_SUFFIX: &'static str = ".ics";

/// The bcrypt cost used to hash the password of a new configuration.
pub const HASH_COST: u32 = 4;

/// `reply` has `status`, a plain body equal to `body`.
pub open spec fn reply_is(reply: Reply, status: Status, body: Seq<char>) -> bool {
    reply.status == status && reply.body@ == body && !reply.is_calendar
}

/// A plain reply.
pub fn plain_reply(status: Status, body: &str) -> (reply: Reply)
    ensures
        reply_is(reply, status, body@),
{
    Reply { status, body: body.to_string(), is_calendar: false }
}

/// The body of the refusal of a root action, if it is refused: with no password,
/// or with one that differs from the root password.
pub open spec fn root_refusal(root_password: Seq<char>, provided: Option<String>) -> Option<Seq<char>> {
    match provided {
        None => Some(ROOT_PASSWORD_MISSING@),
        Some(p) => if p@ == root_password {
            None
        } else {
            Some(WRONG_ROOT_PASSWORD@)
        },
    }
}

/// The refusal of a root action, or `None` when the root password was given.
pub fn root_password_refusal(root_password: &String, info: &AuthRequest) -> (refusal: Option<Reply>)
    ensures
        match root_refusal(root_password@, info.password) {
            Some(body) => refusal matches Some(r) && reply_is(r, Status::BadRequest, body),
            None => refusal is None,
        },
{
    match &info.password {
        Some(pwd) => {
            if pwd.eq(root_password) {
                None
            } else {
                Some(plain_reply(Status::BadRequest, WRONG_ROOT_PASSWORD))
            }
        },
        None => Some(plain_reply(Status::BadRequest, ROOT_PASSWORD_MISSING)),
    }
}

/// The reply to emptying the store: its message, or its error as a bad request.
pub fn init_db_reply(result: Result<String, String>) -> (reply: Reply)
    ensures
        match result {
            Ok(msg) => reply_is(reply, Status::Success, msg@),
            Err(err) => reply_is(reply, Status::BadRequest, err@),
        },
{
    match result {
        Ok(msg) => Reply { status: Status::Success, body: msg, is_calendar: false },
        Err(err) => Reply { status: Status::BadRequest, body: err, is_calendar: false },
    }
}

/// Empties the store and replies.
fn init_the_db() -> (reply: Reply)
    ensures
        (reply_is(reply, Status::Success, DB_INITIALIZED@) && store_was_emptied()) || (reply.status
            == Status::BadRequest && !reply.is_calendar),
{
    init_db_reply(db::init_db())
}

/// Lists the whole store.
fn list_ok() -> (reply: Reply)
    ensures
        reply.status == Status::Success && !reply.is_calendar && listed_by_store(reply.body@),
{
    let cals = db::get_cals_from_db();
    Reply { status: Status::Success, body: cals, is_calendar: false }
}

/// Performs a root action when the root password is given; else refuses it.
pub fn check_root_password_and_apply(root_password: &String, info: &AuthRequest, action: RootAction) -> (reply:
    Reply)
    ensures
        match root_refusal(root_password@, info.password) {
            Some(body) => reply_is(reply, Status::BadRequest, body),
            None => match action {
                RootAction::InitDb => (reply_is(reply, Status::Success, DB_INITIALIZED@)
                    && store_was_emptied()) || (reply.status == Status::BadRequest && !reply.is_calendar),
                RootAction::ListDb => reply.status == Status::Success && !reply.is_calendar
                    && listed_by_store(reply.body@),
            },
        },
{
    match root_password_refusal(root_password, info) {
        Some(refusal) => refusal,
        None => match action {
            RootAction::InitDb => init_the_db(),
            RootAction::ListDb => list_ok(),
        },
    }
}

/// Reinitialises the store, for the holder of the root password.
pub fn init(root_password: &String, info: &AuthRequest) -> (reply: Reply)
    ensures
        match root_refusal(root_password@, info.password) {
            Some(body) => reply_is(reply, Status::BadRequest, body),
            None => (reply_is(reply, Status::Success, DB_INITIALIZED@) && store_was_emptied()) || (
            reply.status == Status::BadRequest && !reply.is_calendar),
        },
{
    check_root_password_and_apply(root_password, info, RootAction::InitDb)
}

/// Lists the whole store, for the holder of the root password.
pub fn list_db(root_password: &String, info: &AuthRequest) -> (reply: Reply)
    ensures
        match root_refusal(root_password@, info.password) {
            Some(body) => reply_is(reply, Status::BadRequest, body),
            None => reply.status == Status::Success && !reply.is_calendar && listed_by_store(
                reply.body@,
            ),
        },
{
    check_root_password_and_apply(root_password, info, RootAction::ListDb)
}

/// Whether `password` matches the bcrypt `hash`, as `bcrypt::verify` decides
/// (`None` when it fails, e.g. on a malformed hash).
pub uninterp spec fn bcrypt_verification(password: Seq<char>, hash: Seq<char>) -> Option<bool>;

/// `bcrypt::verify(password, hash)`, its error turned into `None`. The result is a
/// function of the two texts, named `bcrypt_verification`; the bcrypt algorithm
/// itself is not restated.
#[verifier::external_body]
fn verify_password(password: &str, hash: &str) -> (verdict: Option<bool>)
    ensures
        verdict == bcrypt_verification(password@, hash@),
{
    bcrypt::verify(password, hash).ok()
}

/// A character of bcrypt's base64 alphabet (`./A-Za-z0-9`).
pub open spec fn is_bcrypt_base64_char(c: char) -> bool {
    c == '.' || c == '/' || ('A' <= c <= 'Z') || ('a' <= c <= 'z') || ('0' <= c <= '9')
}

/// `h` has the form of a bcrypt hash of version 2b and cost `cost`: 60
/// characters, `$2b$`, the cost in two decimal digits, `$`, then 53 characters of
/// bcrypt's base64 alphabet (the salt and the digest).
pub open spec fn is_bcrypt_hash_form(h: Seq<char>, cost: nat) -> bool {
    &&& h.len() == 60
    &&& h[0] == '$' && h[1] == '2' && h[2] == 'b' && h[3] == '$'
    &&& h[4] == (48 + cost / 10) as char && h[5] == (48 + cost % 10) as char
    &&& h[6] == '$'
    &&& forall|i: int| 7 <= i < 60 ==> is_bcrypt_base64_char(#[trigger] h[i])
}

/// `bcrypt::hash(password, cost)` with a random salt, its error turned into `None`.
/// The hash depends on the salt, so it gets no name; what the bcrypt source shows
/// is stated: it succeeds only for a cost from 4 to 31, it writes the version 2b
/// form with that cost, and `verify` accepts the password against the hash it
/// produced (the salt and cost are read back from the hash and the same digest is
/// recomputed).
#[verifier::external_body]
fn hash_password(password: &str, cost: u32) -> (hash: Option<String>)
    ensures
        hash is Some ==> 4 <= cost <= 31,
        hash matches Some(h) ==> is_bcrypt_hash_form(h@, cost as nat),
        hash matches Some(h) ==> bcrypt_verification(password@, h@) == Some(true),
{
    bcrypt::hash(password, cost).ok()
}

/// A random number from `rand::thread_rng()`; nothing is stated of it.
#[verifier::external_body]
fn random_u64() -> u64 {
    rand::thread_rng().gen::<u64>()
}

/// The `Debug` text of a string, as `format!("{:?}", s)` writes it (quoted and
/// escaped). The result is a function of the text, named `debug_text`.
pub uninterp spec fn debug_text(s: Seq<char>) -> Seq<char>;

/// `format!("{:?}", s)`.
#[verifier::external_body]
fn debug_string(s: &str) -> (text: String)
    ensures
        text@ == debug_text(s@),
{
    format!("{:?}", s)
}

/// The reply to a deletion: what was deleted, or that nothing was found.
pub fn deleted_reply(deleted: Option<String>) -> (reply: Reply)
    ensures
        match deleted {
            Some(url) => reply_is(reply, Status::Success, "Calendar "@ + url@ + " deleted"@),
            None => reply_is(reply, Status::NotFound, NO_MERGE_CONF@),
        },
{
    match deleted {
        Some(url) => {
            let mut body = "Calendar ".to_string();
            body.append(url.as_str());
            body.append(" deleted");
            Reply { status: Status::Success, body, is_calendar: false }
        },
        None => plain_reply(Status::NotFound, NO_MERGE_CONF),
    }
}

/// Deletes the configuration stored for `url` and replies.
fn del_cal(url: String) -> (reply: Reply)
    ensures
        (reply_is(reply, Status::Success, "Calendar "@ + url@ + " deleted"@) && store_removed(url@))
            || reply_is(reply, Status::NotFound, NO_MERGE_CONF@),
{
    deleted_reply(db::delete_calmerge(&url))
}

/// The body of the refusal of a protected action for what bcrypt said of the
/// given password and the stored hash; `None` when access is granted.
pub open spec fn password_refusal(verdict: Option<bool>) -> Option<Seq<char>> {
    match verdict {
        None => Some(PASSWORD_CHECK_ERROR@),
        Some(false) => Some(WRONG_PASSWORD@),
        Some(true) => None,
    }
}

/// The reply to a protected action once the password has been checked:
/// `verdict` is what bcrypt said of the given password and the stored hash.
pub fn reply_for_verdict(verdict: Option<bool>, cal_url: String, doc: String, action: CalAction) -> (reply:
    Reply)
    ensures
        match password_refusal(verdict) {
            Some(body) => reply_is(reply, Status::BadRequest, body),
            None => match action {
                CalAction::Get => reply_is(reply, Status::Success, doc@),
                CalAction::Delete => (reply_is(reply, Status::Success, "Calendar "@ + cal_url@ + " deleted"@)
                    && store_removed(cal_url@)) || reply_is(reply, Status::NotFound, NO_MERGE_CONF@),
            },
        },
{
    match verdict {
        Some(true) => match action {
            CalAction::Get => Reply { status: Status::Success, body: doc, is_calendar: false },
            CalAction::Delete => del_cal(cal_url),
        },
        Some(false) => plain_reply(Status::BadRequest, WRONG_PASSWORD),
        None => plain_reply(Status::BadRequest, PASSWORD_CHECK_ERROR),
    }
}

/// Performs a protected action on the configuration stored as `doc` under
/// `cal_url`, whose bcrypt hash is `stored_hash`, when `password` matches it.
pub fn check_password_and_apply(
    cal_url: String,
    doc: String,
    password: &str,
    stored_hash: &str,
    action: CalAction,
) -> (reply: Reply)
    ensures
        match password_refusal(bcrypt_verification(password@, stored_hash@)) {
            Some(body) => reply_is(reply, Status::BadRequest, body),
            None => match action {
                CalAction::Get => reply_is(reply, Status::Success, doc@),
                CalAction::Delete => (reply_is(reply, Status::Success, "Calendar "@ + cal_url@ + " deleted"@)
                    && store_removed(cal_url@)) || reply_is(reply, Status::NotFound, NO_MERGE_CONF@),
            },
        },
{
    let verdict = verify_password(password, stored_hash);
    reply_for_verdict(verdict, cal_url, doc, action)
}

/// What a lookup of a configuration gives: its document when one was found, else
/// the reply that none is stored.
pub fn lookup_reply(found: Option<String>) -> (r: Result<String, Reply>)
    ensures
        match found {
            Some(doc) => r matches Ok(d) && d@ == doc@,
            None => r matches Err(reply) && reply_is(reply, Status::NotFound, NO_MERGE_CONF@),
        },
{
    match found {
        Some(doc) => Ok(doc),
        None => Err(plain_reply(Status::NotFound, NO_MERGE_CONF)),
    }
}

/// The first step of a protected action: a password must be given and a
/// configuration must be stored under `cal_url`; its document is returned.
pub fn find_protected_doc(cal_url: &str, info: &AuthRequest) -> (found: Result<String, Reply>)
    ensures
        info.password is None ==> (found matches Err(r) && reply_is(r, Status::BadRequest, PASSWORD_MISSING@)),
        info.password is Some ==> (found matches Err(r) ==> reply_is(r, Status::NotFound, NO_MERGE_CONF@)),
        found matches Ok(d) ==> store_holds(cal_url@, d@),
{
    match &info.password {
        Some(_) => lookup_reply(db::get_cal_from_url(cal_url)),
        None => Err(plain_reply(Status::BadRequest, PASSWORD_MISSING)),
    }
}

/// The key of the merged calendar served at `/{cal_url}.ics`.
pub fn ics_path(cal_url: &str) -> (path: String)
    ensures
        path@ == cal_url@ + ICS_SUFFIX@,
{
    let mut path = cal_url.to_string();
    path.append(ICS_SUFFIX);
    path
}

/// The configuration document of the merged calendar served at `/{cal_url}.ics`,
/// or the reply that none is stored.
pub fn find_merge_conf(cal_url: &str) -> (found: Result<String, Reply>)
    ensures
        found matches Err(r) ==> reply_is(r, Status::NotFound, NO_MERGE_CONF@),
        found matches Ok(d) ==> store_holds(cal_url@ + ICS_SUFFIX@, d@),
{
    lookup_reply(db::get_cal_from_url(ics_path(cal_url).as_str()))
}

/// The reply that serves a merged calendar.
pub fn calendar_reply(merged: String) -> (reply: Reply)
    ensures
        reply.status == Status::Success && reply.body@ == merged@ && reply.is_calendar,
{
    Reply { status: Status::Success, body: merged, is_calendar: true }
}

/// The filtered contents of `calendars`, each parsed from the text fetched for it,
/// concatenated in order.
pub open spec fn merged_bodies(calendars: Seq<IcsCal>, contents: Seq<Seq<char>>) -> Seq<char>
    decreases calendars.len(),
{
    if calendars.len() == 0 || contents.len() == 0 {
        Seq::empty()
    } else {
        merged_bodies(calendars.drop_last(), contents.drop_last()) + parsed_calendar(
            calendars.last(),
            contents.last(),
        )
    }
}

/// Merging one more calendar appends, after what the others give, that
/// calendar's own text parsed with that calendar's own settings.
pub proof fn law_merge_appends_each_calendar(
    calendars: Seq<IcsCal>,
    contents: Seq<Seq<char>>,
    calendar: IcsCal,
    content: Seq<char>,
)
    requires
        calendars.len() == contents.len(),
    ensures
        merged_bodies(calendars.push(calendar), contents.push(content)) == merged_bodies(
            calendars,
            contents,
        ) + parsed_calendar(calendar, content),
{
    assert(calendars.push(calendar).drop_last() =~= calendars);
    assert(contents.push(content).drop_last() =~= contents);
}

/// Merging two lists of calendars one after the other gives what merging each
/// list gives, one after the other: each calendar is filtered independently of
/// the others.
pub proof fn law_merge_is_calendar_by_calendar(
    a: Seq<IcsCal>,
    s: Seq<Seq<char>>,
    b: Seq<IcsCal>,
    t: Seq<Seq<char>>,
)
    requires
        a.len() == s.len(),
        b.len() == t.len(),
    ensures
        merged_bodies(a + b, s + t) == merged_bodies(a, s) + merged_bodies(b, t),
    decreases b.len(),
{
    if b.len() == 0 {
        assert(a + b =~= a);
        assert(s + t =~= s);
    } else {
        let b0 = b.drop_last();
        let t0 = t.drop_last();
        law_merge_is_calendar_by_calendar(a, s, b0, t0);
        assert(a + b =~= (a + b0).push(b.last()));
        assert(s + t =~= (s + t0).push(t.last()));
        law_merge_appends_each_calendar(a + b0, s + t0, b.last(), t.last());
        assert(b =~= b0.push(b.last()));
        assert(t =~= t0.push(t.last()));
        law_merge_appends_each_calendar(b0, t0, b.last(), t.last());
    }
}

/// The merged calendar of a single calendar is the header with the
/// configuration's name, that calendar's parsed text, and the footer.
pub proof fn law_merge_of_one_calendar(name: Seq<char>, calendar: IcsCal, content: Seq<char>)
    ensures
        merged_calendar(name, seq![calendar], seq![content]) == BEGIN_VCALENDAR@ + NEW_LINE@
            + X_WR_CALNAME@ + name + NEW_LINE@ + parsed_calendar(calendar, content) + END_VCALENDAR@,
{
    law_merge_appends_each_calendar(Seq::empty(), Seq::empty(), calendar, content);
    assert(Seq::<IcsCal>::empty().push(calendar) =~= seq![calendar]);
    assert(Seq::<Seq<char>>::empty().push(content) =~= seq![content]);
    assert(merged_bodies(Seq::<IcsCal>::empty(), Seq::<Seq<char>>::empty()) == Seq::<char>::empty());
    assert(Seq::<char>::empty() + parsed_calendar(calendar, content) =~= parsed_calendar(calendar, content));
}

/// The merged calendar of the configuration named `name`.
pub open spec fn merged_calendar(name: Seq<char>, calendars: Seq<IcsCal>, contents: Seq<Seq<char>>) -> Seq<
    char,
> {
    BEGIN_VCALENDAR@ + NEW_LINE@ + X_WR_CALNAME@ + name + NEW_LINE@ + merged_bodies(calendars, contents)
        + END_VCALENDAR@
}

/// Merges all the calendars of `merge_conf` into one: a calendar header with the
/// configuration's name, then each source calendar filtered from the text
/// fetched for it (`contents[i]` for `merge_conf.calendars[i]`), then the footer.
pub fn merge_calendars(merge_conf: &MergeConf, contents: &Vec<String>) -> (merged: String)
    requires
        contents.len() == merge_conf.calendars.len(),
    ensures
        merged@ == merged_calendar(
            merge_conf.name@,
            merge_conf.calendars@,
            contents@.map_values(|c: String| c@),
        ),
{
    let ghost cals = merge_conf.calendars@;
    let ghost texts = contents@.map_values(|c: String| c@);
    let mut resp = BEGIN_VCALENDAR.to_string();
    resp.append(NEW_LINE);
    resp.append(X_WR_CALNAME);
    resp.append(merge_conf.name.as_str());
    resp.append(NEW_LINE);
    let ghost header = resp@;
    let mut i: usize = 0;
    while i < contents.len()
        invariant
            i <= contents.len(),
            contents.len() == merge_conf.calendars.len(),
            cals == merge_conf.calendars@,
            texts == contents@.map_values(|c: String| c@),
            resp@ == header + merged_bodies(cals.take(i as int), texts.take(i as int)),
        decreases contents.len() - i,
    {
        let part = parse_calendar_text(&merge_conf.calendars[i], contents[i].as_str());
        resp.append(part.as_str());
        assert(cals.take(i + 1).drop_last() =~= cals.take(i as int));
        assert(texts.take(i + 1).drop_last() =~= texts.take(i as int));
        i += 1;
    }
    assert(cals.take(contents.len() as int) =~= cals);
    assert(texts.take(contents.len() as int) =~= texts);
    resp.append(END_VCALENDAR);
    resp
}

/// The url of a configuration stored without one: a random number in
/// lower-case hexadecimal followed by `.ics`.
pub open spec fn random_cal_url(n: nat) -> Seq<char> {
    hex_digits(n) + ICS_SUFFIX@
}

/// `random_cal_url(n)`, computed.
pub fn random_url_from(n: u64) -> (url: String)
    ensures
        url@ == random_cal_url(n as nat),
{
    let mut url = String::new();
    push_lower_hex(&mut url, n);
    url.append(ICS_SUFFIX);
    url
}

/// The configuration to store for a request `cal`: its url, or a random one made
/// from `random_id` when it has none, and `password_hash` in place of the clear
/// password.
pub fn new_merge_conf(cal: MergeConf, random_id: u64, password_hash: String) -> (conf: MergeConf)
    ensures
        conf.name == cal.name,
        conf.calendars == cal.calendars,
        conf.password == password_hash,
        conf.url@ == if cal.url@.len() == 0 {
            random_cal_url(random_id as nat)
        } else {
            cal.url@
        },
{
    let url = if cal.url.as_str().is_empty() {
        random_url_from(random_id)
    } else {
        cal.url
    };
    MergeConf { name: cal.name, url, password: password_hash, calendars: cal.calendars }
}

/// `conf` is a configuration prepared from the request `cal`: same name and
/// calendars, the request's url or else a random one, and in place of the
/// password a bcrypt hash of cost `HASH_COST` that bcrypt matches with the
/// request's password.
pub open spec fn prepared_from(cal: MergeConf, conf: MergeConf) -> bool {
    &&& conf.name == cal.name
    &&& conf.calendars == cal.calendars
    &&& cal.url@.len() != 0 ==> conf.url@ == cal.url@
    &&& cal.url@.len() == 0 ==> exists|n: u64| conf.url@ == random_cal_url(n as nat)
    &&& bcrypt_verification(cal.password@, conf.password@) == Some(true)
    &&& is_bcrypt_hash_form(conf.password@, HASH_COST as nat)
}

/// Prepares the configuration to store for a request `cal`: a random url when it
/// has none, and the bcrypt hash of its password in place of the password.
/// `None` when hashing fails.
pub fn prepare_merge_conf(cal: MergeConf) -> (conf: Option<MergeConf>)
    ensures
        conf matches Some(c) ==> prepared_from(cal, c),
{
    let random_id = if cal.url.as_str().is_empty() {
        random_u64()
    } else {
        0
    };
    match hash_password(cal.password.as_str(), HASH_COST) {
        Some(hash) => Some(new_merge_conf(cal, random_id, hash)),
        None => None,
    }
}

/// The password given when a configuration was created opens it: a protected
/// action with that password is never refused.
pub proof fn law_creation_password_opens(cal: MergeConf, conf: MergeConf)
    requires
        prepared_from(cal, conf),
    ensures
        password_refusal(bcrypt_verification(cal.password@, conf.password@)) is None,
{
}

/// A root action is refused exactly when the root password is not the one given.
pub proof fn law_root_action_needs_root_password(root_password: Seq<char>, provided: Option<String>)
    ensures
        root_refusal(root_password, provided) is None <==> (provided matches Some(p) && p@
            == root_password),
{
}

/// Random urls end with `.ics`, and distinct random numbers give distinct urls.
pub proof fn law_random_urls(a: nat, b: nat)
    ensures
        random_cal_url(a).len() >= ICS_SUFFIX@.len(),
        random_cal_url(a).subrange(
            random_cal_url(a).len() - ICS_SUFFIX@.len(),
            random_cal_url(a).len() as int,
        ) == ICS_SUFFIX@,
        a != b ==> random_cal_url(a) != random_cal_url(b),
{
    let ua = random_cal_url(a);
    assert(ua.subrange(ua.len() - ICS_SUFFIX@.len(), ua.len() as int) =~= ICS_SUFFIX@);
    if a != b && random_cal_url(a) == random_cal_url(b) {
        let ub = random_cal_url(b);
        assert(hex_digits(a) =~= ua.subrange(0, ua.len() - ICS_SUFFIX@.len()));
        assert(hex_digits(b) =~= ub.subrange(0, ub.len() - ICS_SUFFIX@.len()));
        law_hex_digits_injective(a, b);
    }
}

/// The reply to storing a configuration: created, with its path; or a bad
/// request with the debug text of the error.
pub fn created_reply(result: Result<String, String>) -> (reply: Reply)
    ensures
        match result {
            Ok(path) => reply_is(reply, Status::Created, path@),
            Err(err) => reply_is(reply, Status::BadRequest, "Error /"@ + debug_text(err@)),
        },
{
    match result {
        Ok(path) => Reply { status: Status::Created, body: path, is_calendar: false },
        Err(err) => {
            let mut body = "Error /".to_string();
            body.append(debug_string(err.as_str()).as_str());
            Reply { status: Status::BadRequest, body, is_calendar: false }
        },
    }
}

/// Stores the JSON `doc` of a prepared configuration under its url and replies:
/// created with the path `/url`, or a bad request carrying the debug text of the
/// store's error (which begins with `/`).
pub fn store_merge_conf(conf_url: String, doc: String) -> (reply: Reply)
    ensures
        (reply_is(reply, Status::Created, "/"@ + conf_url@) && store_stored(conf_url@, doc@)) || (
        reply.status == Status::BadRequest
            && !reply.is_calendar && exists|err: Seq<char>|
            err.len() >= 1 && err[0] == '/' && reply.body@ == "Error /"@ + debug_text(err)),
{
    let ghost url = conf_url@;
    let stored = db::insert_cal(conf_url, doc);
    let ghost outcome = stored;
    let reply = created_reply(stored);
    proof {
        if let Err(err) = outcome {
            assert(err@.len() >= 1 && err@[0] == '/' && reply.body@ == "Error /"@ + debug_text(err@));
        }
    }
    reply
}

} // verus!
