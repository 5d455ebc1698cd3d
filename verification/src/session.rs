//! Microsoft account sessions: what the backend's answers mean for the login
//! flow, and the requests and addresses that the flow uses.
use vstd::prelude::*;
use crate::text::{concat2, push_str, to_owned_string};
use crate::json::{Json, JsonV, jv_index, jv_as_str, jv_as_bool, jv_str};

verus! {

/// A logged-in Microsoft account, as the backend returns it.
#[derive(Debug)]
pub struct MicrosoftSession {
    pub uuid: String,
    pub username: String,
    pub access_token: String,
    pub refresh_token: String,
    pub minecraft_token: String,
    pub uhs: String,
}

pub ghost struct MicrosoftSessionV {
    pub uuid: Seq<char>,
    pub username: Seq<char>,
    pub access_token: Seq<char>,
    pub refresh_token: Seq<char>,
    pub minecraft_token: Seq<char>,
    pub uhs: Seq<char>,
}

impl View for MicrosoftSession {
    type V = MicrosoftSessionV;

    open spec fn view(&self) -> MicrosoftSessionV {
        MicrosoftSessionV {
            uuid: self.uuid@,
            username: self.username@,
            access_token: self.access_token@,
            refresh_token: self.refresh_token@,
            minecraft_token: self.minecraft_token@,
            uhs: self.uhs@,
        }
    }
}

impl MicrosoftSession {
    pub fn get_uuid(&self) -> (res: &str)
        ensures
            res@ == self.uuid@,
    {
        self.uuid.as_str()
    }

    pub fn get_username(&self) -> (res: &str)
        ensures
            res@ == self.username@,
    {
        self.username.as_str()
    }

    pub fn get_access_token(&self) -> (res: &str)
        ensures
            res@ == self.access_token@,
    {
        self.access_token.as_str()
    }

    pub fn get_refresh_token(&self) -> (res: &str)
        ensures
            res@ == self.refresh_token@,
    {
        self.refresh_token.as_str()
    }

    pub fn get_minecraft_token(&self) -> (res: &str)
        ensures
            res@ == self.minecraft_token@,
    {
        self.minecraft_token.as_str()
    }
}

/// An error to show the user: a title and a description.
#[derive(Debug)]
pub struct ErrorData {
    pub title: &'static str,
    pub description: String,
}

/// The session that a backend answer holds: all six members are strings.
pub open spec fn spec_session_from(j: JsonV) -> Option<MicrosoftSessionV> {
    match (
        jv_as_str(jv_index(j, "uuid"@)),
        jv_as_str(jv_index(j, "username"@)),
        jv_as_str(jv_index(j, "minecraft_token"@)),
        jv_as_str(jv_index(j, "access_token"@)),
        jv_as_str(jv_index(j, "refresh_token"@)),
        jv_as_str(jv_index(j, "uhs"@)),
    ) {
        (Some(uuid), Some(username), Some(minecraft_token), Some(access_token), Some(refresh_token), Some(uhs)) => Some(
            MicrosoftSessionV { uuid, username, access_token, refresh_token, minecraft_token, uhs },
        ),
        _ => None,
    }
}

/// `j["ok"].as_bool().unwrap_or(false)`.
pub open spec fn spec_is_ok(j: JsonV) -> bool {
    jv_as_bool(jv_index(j, "ok"@)) == Some(true)
}

/// `j["error"].as_str().unwrap_or(default)`.
pub open spec fn spec_error_text(j: JsonV, default: Seq<char>) -> Seq<char> {
    match jv_as_str(jv_index(j, "error"@)) {
        Some(e) => e,
        None => default,
    }
}

/// Reads the session out of a backend answer; `None` when a member is
/// missing or is no string.
pub fn session_from_json(j: &Json) -> (res: Option<MicrosoftSession>)
    ensures
        match res {
            Some(s) => spec_session_from(j@) == Some(s@),
            None => spec_session_from(j@) is None,
        },
{
    let uuid = j.get_str("uuid");
    let username = j.get_str("username");
    let minecraft_token = j.get_str("minecraft_token");
    let access_token = j.get_str("access_token");
    let refresh_token = j.get_str("refresh_token");
    let uhs = j.get_str("uhs");
    match (uuid, username, minecraft_token, access_token, refresh_token, uhs) {
        (Some(uuid), Some(username), Some(minecraft_token), Some(access_token), Some(refresh_token), Some(uhs)) => Some(
            MicrosoftSession { uuid, username, access_token, refresh_token, minecraft_token, uhs },
        ),
        _ => None,
    }
}

fn is_ok(j: &Json) -> (res: bool)
    ensures
        res == spec_is_ok(j@),
{
    match j.get_bool("ok") {
        Some(b) => b,
        None => false,
    }
}

fn error_text(j: &Json, default: &str) -> (res: String)
    ensures
        res@ == spec_error_text(j@, default@),
{
    match j.get_str("error") {
        Some(e) => e,
        None => to_owned_string(default),
    }
}

// ---------------------------------------------------------------------------
// Logging in with stored tokens
// ---------------------------------------------------------------------------

/// The body of `POST /api/microsoft/login_existing`.
pub open spec fn spec_login_existing_body(access_token: Seq<char>, refresh_token: Seq<char>) -> JsonV {
    JsonV::Object(
        seq![("access_token"@, jv_str(access_token)), ("refresh_token"@, jv_str(refresh_token))],
    )
}

pub fn login_existing_body(access_token: &str, refresh_token: &str) -> (res: Json)
    ensures
        res@ == spec_login_existing_body(access_token@, refresh_token@),
{
    let a = Json::from_str_value(access_token);
    let r = Json::from_str_value(refresh_token);
    let mut es: Vec<(String, Json)> = Vec::new();
    es.push((to_owned_string("access_token"), a));
    es.push((to_owned_string("refresh_token"), r));
    let res = Json::Object(es);
    assert(crate::json::jv_entries(res@) =~= crate::json::jv_entries(spec_login_existing_body(access_token@, refresh_token@)));
    res
}

/// What the login with stored tokens gives for the backend's answer: the
/// session, or the message that it is incomplete.
pub fn login_existing_outcome(answer: &Json) -> (res: Result<MicrosoftSession, &'static str>)
    ensures
        match res {
            Ok(s) => spec_session_from(answer@) == Some(s@),
            Err(m) => spec_session_from(answer@) is None && m@
                == "Failed to process session: Malformed or incomplete data, please contact support."@,
        },
{
    match session_from_json(answer) {
        Some(s) => Ok(s),
        None => Err("Failed to process session: Malformed or incomplete data, please contact support."),
    }
}

/// The message when the request with stored tokens fails.
pub fn login_existing_failure(err: &str) -> (res: String)
    ensures
        res@ == "Failed to login: "@ + err@,
{
    concat2("Failed to login: ", err)
}

// ---------------------------------------------------------------------------
// Logging in through the browser
// ---------------------------------------------------------------------------

/// The body of `POST /api/microsoft/loginsession`.
pub fn login_session_body(uuid: &str) -> (res: Json)
    ensures
        res@ == JsonV::Object(seq![("uuid"@, jv_str(uuid@))]),
{
    let u = Json::from_str_value(uuid);
    let mut es: Vec<(String, Json)> = Vec::new();
    es.push((to_owned_string("uuid"), u));
    let res = Json::Object(es);
    assert(crate::json::jv_entries(res@) =~= seq![("uuid"@, jv_str(uuid@))]);
    res
}

/// The error when the login session cannot be registered for want of a
/// connection.
pub fn connection_error() -> (res: ErrorData)
    ensures
        res.title@ == "Connection Error"@,
        res.description@ == "Error connecting to server, please check your internet connection."@,
{
    ErrorData {
        title: "Connection Error",
        description: to_owned_string(
            "Error connecting to server, please check your internet connection.",
        ),
    }
}

/// Checks the answer to `POST /api/microsoft/loginsession`: refused unless
/// `ok` is `true`.
pub fn check_login_session(answer: &Json) -> (res: Result<(), ErrorData>)
    ensures
        res is Ok <==> spec_is_ok(answer@),
        res matches Err(e) ==> e.title@ == "Server Error"@ && e.description@
            == "An unexpected error occured: "@ + spec_error_text(answer@, "Unknown Error"@)
            + "\nplease try again later.\nSorry for the inconvenience."@,
{
    if is_ok(answer) {
        return Ok(());
    }
    let mut d = to_owned_string("An unexpected error occured: ");
    let e = error_text(answer, "Unknown Error");
    push_str(&mut d, e.as_str());
    push_str(&mut d, "\nplease try again later.\nSorry for the inconvenience.");
    Err(ErrorData { title: "Server Error", description: d })
}

/// The address that the browser opens to sign in: Microsoft's consumer
/// authorize page, redirecting to the backend's callback, with the login
/// id as `state`.
pub open spec fn spec_authorize_url(backend_url: Seq<char>, client_id: Seq<char>, state: Seq<char>) -> Seq<char> {
    "https://login.microsoftonline.com/consumers/oauth2/v2.0/authorize?client_id="@ + client_id
        + "&response_type=code&redirect_uri="@ + backend_url + "/api/microsoft/callback"@
        + "&scope=XboxLive.signin%20offline_access&state="@ + state
}

pub fn authorize_url(backend_url: &str, client_id: &str, state: &str) -> (res: String)
    ensures
        res@ == spec_authorize_url(backend_url@, client_id@, state@),
{
    let mut u = to_owned_string(
        "https://login.microsoftonline.com/consumers/oauth2/v2.0/authorize?client_id=",
    );
    push_str(&mut u, client_id);
    push_str(&mut u, "&response_type=code&redirect_uri=");
    push_str(&mut u, backend_url);
    push_str(&mut u, "/api/microsoft/callback");
    push_str(&mut u, "&scope=XboxLive.signin%20offline_access&state=");
    push_str(&mut u, state);
    u
}

/// The backend path that is polled for the login's outcome.
pub fn login_poll_path(state: &str) -> (res: String)
    ensures
        res@ == "/api/microsoft/login?uuid="@ + state@,
{
    concat2("/api/microsoft/login?uuid=", state)
}

/// The error when the browser cannot be opened.
pub fn browser_error(err: &str) -> (res: ErrorData)
    ensures
        res.title@ == "System Error"@,
        res.description@ == "Failed to open browser: "@ + err@,
{
    ErrorData { title: "System Error", description: concat2("Failed to open browser: ", err) }
}

/// The error when a poll request fails.
pub fn poll_request_error(err: &str) -> (res: ErrorData)
    ensures
        res.title@ == "Fatal Error"@,
        res.description@ == "Failed to check login status: "@ + err@ + " \nIs your internet down?"@,
{
    let mut d = concat2("Failed to check login status: ", err);
    push_str(&mut d, " \nIs your internet down?");
    ErrorData { title: "Fatal Error", description: d }
}

/// What one poll of the login's status decides.
#[derive(Debug)]
pub enum PollOutcome {
    /// Not signed in yet: poll again.
    Pending,
    /// Signed in.
    LoggedIn(MicrosoftSession),
    /// The login failed; show the error and stop polling.
    Failed(ErrorData),
}

/// Decides on one answer to the poll: a refusal unless `ok` is `true`; then
/// pending unless `authenticated` is `true`; then the session, or an error
/// when it is incomplete.
pub fn poll_outcome(answer: &Json) -> (res: PollOutcome)
    ensures
        !spec_is_ok(answer@) <==> (res matches PollOutcome::Failed(e) && e.title@ == "Server Error"@),
        !spec_is_ok(answer@) ==> (res matches PollOutcome::Failed(e) && e.description@
            == "Login failed: "@ + spec_error_text(answer@, "Cannot provide error message"@)
            + ". Please contact support."@),
        spec_is_ok(answer@) && jv_as_bool(jv_index(answer@, "authenticated"@)) != Some(true)
            <==> res is Pending,
        spec_is_ok(answer@) && jv_as_bool(jv_index(answer@, "authenticated"@)) == Some(true) ==> match res {
            PollOutcome::LoggedIn(s) => spec_session_from(answer@) == Some(s@),
            PollOutcome::Failed(e) => spec_session_from(answer@) is None && e.title@ == "Session Error"@
                && e.description@ == "Data received from server is incomplete. Please contact support."@,
            PollOutcome::Pending => false,
        },
{
    proof {
        reveal_strlit("Server Error");
        reveal_strlit("Session Error");
        assert("Server Error"@.len() == 12);
        assert("Session Error"@.len() == 13);
    }
    if !is_ok(answer) {
        let mut d = to_owned_string("Login failed: ");
        let e = error_text(answer, "Cannot provide error message");
        push_str(&mut d, e.as_str());
        push_str(&mut d, ". Please contact support.");
        return PollOutcome::Failed(ErrorData { title: "Server Error", description: d });
    }
    let authenticated = match answer.get_bool("authenticated") {
        Some(b) => b,
        None => false,
    };
    if !authenticated {
        return PollOutcome::Pending;
    }
    match session_from_json(answer) {
        Some(s) => PollOutcome::LoggedIn(s),
        None => PollOutcome::Failed(
            ErrorData {
                title: "Session Error",
                description: to_owned_string(
                    "Data received from server is incomplete. Please contact support.",
                ),
            },
        ),
    }
}

/// A login id: a version-4 UUID in the hyphenated form. 36 characters,
/// hyphens at 8, 13, 18 and 23, lower-case hexadecimal digits elsewhere; the
/// version digit `4` at 14 and the variant digit (`8` to `b`) at 19.
pub open spec fn spec_is_login_id(s: Seq<char>) -> bool {
    &&& s.len() == 36
    &&& s[14] == '4'
    &&& (s[19] == '8' || s[19] == '9' || s[19] == 'a' || s[19] == 'b')
    &&& forall|i: int| 0 <= i < 36 ==> (#[trigger] s[i] == '-' <==> (i == 8 || i == 13 || i == 18 || i == 23))
    &&& forall|i: int| 0 <= i < 36 && s[i] != '-' ==> ('0' <= #[trigger] s[i] <= '9' || 'a' <= s[i] <= 'f')
}

/// Calls `uuid::Uuid::new_v4().to_string()`: a fresh random id in the
/// hyphenated form, its version and variant bits set by `new_v4`. Which id
/// comes out is chance; only its form is claimed.
#[verifier::external_body]
fn new_login_id() -> (res: String)
    ensures
        spec_is_login_id(res@),
{
    uuid::Uuid::new_v4().to_string()
}

/// Starts a login through the browser: a fresh login id, and the body of
/// `POST /api/microsoft/loginsession` that registers it with the backend.
pub fn begin_login() -> (res: (String, Json))
    ensures
        spec_is_login_id(res.0@),
        res.1@ == JsonV::Object(seq![("uuid"@, jv_str(res.0@))]),
{
    let id = new_login_id();
    let body = login_session_body(id.as_str());
    (id, body)
}

} // verus!
