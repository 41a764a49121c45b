//! Request and response shapes of the HTTP API around the pipeline, and the
//! decisions its handlers make on plain values.

use vstd::prelude::*;
use crate::accounts::UserOutput;
use crate::ids::fresh_id;

verus! {

/// The user a request is made for; empty when it carries no session.
pub struct UserId(pub String);

pub struct CreateWebsiteInput {
    pub url: String,
    pub about: String,
    pub user_id: String,
}

pub struct CreateUserInput {
    pub username: String,
    pub password: String,
    pub name: String,
}

pub struct SignInUserInput {
    pub username: String,
    pub password: String,
}

pub struct UpdateEmailInput {
    pub user_id: String,
    pub new_email: String,
}

pub struct UpdatePasswordInput {
    pub user_id: String,
    pub old_password: String,
    pub new_password: String,
}

/// One page visit reported by the tracking snippet.
pub struct TrackingInput {
    pub visitor_id: String,
    pub page_url: String,
    pub referrer: String,
    pub user_agent: String,
    pub time_stamp: String,
}

pub struct GetViewsPerPageInput {
    pub website: String,
}

pub struct GetWebsiteDetailsDailyInput {
    pub user_id: String,
    pub website: String,
    pub day: String,
}

pub struct GetWebsiteDetailsHourlyInput {
    pub user_id: String,
    pub website: String,
    pub hour: String,
}

pub struct GetWebsiteDetailsLastHourInput {
    pub user_id: String,
    pub website: String,
}

pub struct GetWebsiteAverageRespTime {
    pub website: String,
}

pub struct GetWebsiteAverageRespTimeByRegion {
    pub website: String,
    pub region: String,
}

pub struct GetUptimePercentage {
    pub website: String,
}

pub struct GetUptimePercentageByRegion {
    pub website: String,
    pub region: String,
}

pub struct CreateWebsiteOutput {
    pub website_id: String,
    pub success: bool,
}

pub struct CreateUserOutput {
    pub user_id: String,
    pub success: bool,
}

pub struct SigninUserOutput {
    pub jwt: String,
    pub success: bool,
}

/// The signed-in user as the API reports it.
pub struct User {
    pub id: String,
    pub name: String,
    pub email: String,
    pub plan_type: String,
    pub success: bool,
}

/// The claims of a session token: the user it was issued to and when it expires.
pub struct Claims {
    pub sub: String,
    pub exp: u64,
}

/// Expiry written into every session token.
pub const SESSION_EXPIRY: u64 = 1111111111111;

/// The claims of the session token issued to `user_id`.
pub fn session_claims(user_id: String) -> (r: Claims)
    ensures
        r.sub@ == user_id@,
        r.exp == SESSION_EXPIRY,
{
    Claims { sub: user_id, exp: SESSION_EXPIRY }
}

/// The text of the session cookie for `token`.
pub open spec fn spec_session_cookie(token: Seq<char>) -> Seq<char> {
    "jwt="@ + token + "; HttpOnly; SameSite=Lax; Path=/; Max-Age=604800;"@
}

/// The cookie that carries a session token for a week.
pub fn session_cookie(token: &String) -> (r: String)
    ensures
        r@ == spec_session_cookie(token@),
{
    let r = "jwt=".to_owned();
    let r = r.concat(token.as_str());
    r.concat("; HttpOnly; SameSite=Lax; Path=/; Max-Age=604800;")
}

/// The text of the cookie that ends a session.
pub open spec fn spec_logout_cookie() -> Seq<char> {
    "jwt=; HttpOnly; SameSite=Lax; Path=/; Max-Age=0"@
}

/// The cookie that ends a session.
pub fn logout_cookie() -> (r: String)
    ensures
        r@ == spec_logout_cookie(),
{
    "jwt=; HttpOnly; SameSite=Lax; Path=/; Max-Age=0".to_owned()
}

/// The reply to "who am I": a request without a session gets a failed reply
/// with placeholder fields; otherwise the user found, or a failed reply with
/// empty fields when there is none.
pub fn user_reply(user_id: &String, found: Option<UserOutput>) -> (r: User)
    ensures
        user_id@.len() == 0 ==> !r.success && r.id@ == "()"@ && r.name@ == "()"@ && r.email@ == "()"@
            && r.plan_type@.len() == 0,
        user_id@.len() > 0 && found is None ==> !r.success && r.id@.len() == 0 && r.name@.len() == 0
            && r.email@.len() == 0 && r.plan_type@.len() == 0,
        user_id@.len() > 0 && found is Some ==> r.success && r.id@ == found.unwrap().id@
            && r.name@ == found.unwrap().name@ && r.email@ == found.unwrap().email@
            && r.plan_type@ == found.unwrap().plan_type@,
{
    if user_id.as_str().is_empty() {
        return User {
            id: "()".to_owned(),
            name: "()".to_owned(),
            email: "()".to_owned(),
            plan_type: String::new(),
            success: false,
        };
    }
    match found {
        Some(u) => User { id: u.id, name: u.name, email: u.email, plan_type: u.plan_type, success: true },
        None => User {
            id: String::new(),
            name: String::new(),
            email: String::new(),
            plan_type: String::new(),
            success: false,
        },
    }
}

/// What `str::trim` makes of a string: the same characters without leading
/// and trailing Unicode whitespace.
pub uninterp spec fn trimmed(s: Seq<char>) -> Seq<char>;

/// Relies on str::trim: the result depends on the characters alone, and an
/// empty string stays empty.
#[verifier::external_body]
fn trim(s: &str) -> (r: &str)
    ensures
        r@ == trimmed(s@),
        s@.len() == 0 ==> r@.len() == 0,
{
    s.trim()
}

/// The reporting window asked for, or `default` when it is blank, given
/// the asked window with surrounding whitespace removed.
pub fn window_given_trimmed(window: String, trimmed_window: &str, default: &str) -> (r: String)
    ensures
        r@ == if trimmed_window@.len() == 0 { default@ } else { window@ },
{
    if trimmed_window.is_empty() {
        default.to_owned()
    } else {
        window
    }
}

/// The reporting window used: the one asked for unless it is blank.
pub open spec fn spec_window(window: Seq<char>, default: Seq<char>) -> Seq<char> {
    if trimmed(window).len() == 0 { default } else { window }
}

/// The window of hourly views: two hours unless another is asked for.
pub fn hourly_window(hours: String) -> (r: String)
    ensures
        r@ == spec_window(hours@, "2 hours"@),
{
    let t = trim(hours.as_str()).to_owned();
    window_given_trimmed(hours, t.as_str(), "2 hours")
}

/// The window of daily views: two days unless another is asked for.
pub fn daily_window(days: String) -> (r: String)
    ensures
        r@ == spec_window(days@, "2 day"@),
{
    let t = trim(days.as_str()).to_owned();
    window_given_trimmed(days, t.as_str(), "2 day")
}

/// A fresh random id for a website being registered.
pub fn new_website_id() -> (r: String)
    ensures
        r@.len() == 36,
{
    fresh_id()
}

/// The reply to creating a website: its id, or the store's error message
/// in that field on failure.
pub fn create_website_reply(created: Result<String, String>) -> (r: CreateWebsiteOutput)
    ensures
        created matches Ok(id) ==> r.success && r.website_id@ == id@,
        created matches Err(msg) ==> !r.success && r.website_id@ == msg@,
{
    match created {
        Ok(website_id) => CreateWebsiteOutput { website_id, success: true },
        Err(message) => CreateWebsiteOutput { website_id: message, success: false },
    }
}

} // verus!
