//! The decisions of the GLPI REST client: where requests go, how a reply is classified,
//! and when the session is opened or renewed. The transport itself performs the calls.
use vstd::prelude::*;
use crate::compact::{compact_spec, compacted};
use crate::config::{spec_api_prefix, GlpiVersion};
use crate::error::GlpiError;
use crate::json::{copy_string, jget_str, owned, view_items, Json, JsonV};
use crate::markdown::{truncate_chars, truncate_spec};
use crate::text::{chars_of, extend, extend_str, int_text, occurs_at_exec, string_of};

verus! {

broadcast use vstd::string::group_string_axioms;

/// An HTTP status, by its code.
#[derive(Debug, PartialEq)]
pub struct HttpStatus {
    pub code: u16,
}

/// The reason phrase that `http::StatusCode` shows for a code: its canonical reason, or
/// `<unknown status code>` for a code that has none.
pub uninterp spec fn status_reason(code: u16) -> Seq<char>;

/// The text a status displays: its code, a space, and its reason (such as `404 Not Found`).
pub open spec fn status_text_spec(code: u16) -> Seq<char> {
    int_text(code as int) + " "@ + status_reason(code)
}

/// Calls `http::StatusCode::from_u16` and shows the status with its `Display`, which writes
/// the code, a space and the reason phrase; the reason is named by `status_reason`. Every
/// code from 100 to 999 is a status.
#[verifier::external_body]
fn status_text(code: u16) -> (r: String)
    requires
        100 <= code <= 999,
    ensures
        r@ == int_text(code as int) + " "@ + status_reason(code),
{
    match reqwest::StatusCode::from_u16(code) {
        Ok(s) => s.to_string(),
        Err(_) => String::new(),
    }
}

/// A 2xx status.
pub open spec fn is_success(code: u16) -> bool {
    200 <= code <= 299
}

/// The mathematical form of an error.
pub enum ErrorV {
    Http(Seq<char>),
    Timeout,
    SessionInvalid(Seq<char>, Seq<char>),
    Api(Seq<char>, Seq<char>),
    JsonParse(Seq<char>),
    InvalidResponse(Seq<char>),
    MissingEnv(Seq<char>),
    InvalidConfig(Seq<char>),
}

/// The mathematical form of `e`.
pub open spec fn error_view(e: GlpiError) -> ErrorV {
    match e {
        GlpiError::Http(t) => ErrorV::Http(t@),
        GlpiError::Timeout => ErrorV::Timeout,
        GlpiError::SessionInvalid { code, message } => ErrorV::SessionInvalid(code@, message@),
        GlpiError::Api { code, message } => ErrorV::Api(code@, message@),
        GlpiError::JsonParse(t) => ErrorV::JsonParse(t@),
        GlpiError::InvalidResponse(t) => ErrorV::InvalidResponse(t@),
        GlpiError::MissingEnv(t) => ErrorV::MissingEnv(t@),
        GlpiError::InvalidConfig(t) => ErrorV::InvalidConfig(t@),
    }
}

/// The mathematical form of a call's result.
pub open spec fn result_view(r: Result<Json, GlpiError>) -> Result<JsonV, ErrorV> {
    match r {
        Ok(v) => Ok(v@),
        Err(e) => Err(error_view(e)),
    }
}

/// What GLPI's reply to a call amounts to.
#[derive(Debug, PartialEq)]
pub enum ResponseOutcome {
    Success(Json),
    SessionExpired { code: String, message: String },
    ApiError { code: String, message: String },
    Invalid(String),
}

/// The mathematical form of an outcome.
pub enum OutcomeV {
    Success(JsonV),
    SessionExpired(Seq<char>, Seq<char>),
    ApiError(Seq<char>, Seq<char>),
    Invalid(Seq<char>),
}

pub open spec fn outcome_view(o: ResponseOutcome) -> OutcomeV {
    match o {
        ResponseOutcome::Success(v) => OutcomeV::Success(v@),
        ResponseOutcome::SessionExpired { code, message } => OutcomeV::SessionExpired(code@, message@),
        ResponseOutcome::ApiError { code, message } => OutcomeV::ApiError(code@, message@),
        ResponseOutcome::Invalid(t) => OutcomeV::Invalid(t@),
    }
}

/// The error codes by which GLPI says that the session token is no longer valid.
pub open spec fn is_session_expired_code(code: Seq<char>) -> bool {
    code == "ERROR_SESSION_TOKEN_INVALID"@ || code == "ERROR_SESSION_TOKEN_MISSING"@
}

/// GLPI's error shape: a two-item array whose first item is a string starting with `ERROR`.
pub open spec fn is_error_array_spec(items: Seq<JsonV>) -> bool {
    items.len() == 2 && (match items[0] {
        JsonV::Str(s) => s.len() >= 5 && s.take(5) == "ERROR"@,
        _ => false,
    })
}

/// The text of a string value, or empty.
pub open spec fn str_or_empty(v: JsonV) -> Seq<char> {
    match v {
        JsonV::Str(s) => s,
        _ => Seq::empty(),
    }
}

/// The object GLPI's empty success replies stand for.
pub open spec fn empty_success() -> JsonV {
    JsonV::Object(seq![("message"@, JsonV::Str("Success (empty response)"@))])
}

/// How a reply is classified. `body` is the parsed reply (`None` when it is no JSON),
/// `text` the raw reply and `rendered` the parsed reply written back as compact JSON.
pub open spec fn classify_spec(
    code: u16,
    body: Option<JsonV>,
    text: Seq<char>,
    rendered: Seq<char>,
) -> OutcomeV {
    let status_text = status_text_spec(code);
    match body {
        None => if is_success(code) {
            OutcomeV::Success(empty_success())
        } else {
            OutcomeV::Invalid("HTTP "@ + status_text + ": "@ + truncate_spec(text, 500))
        },
        Some(v) => match v {
            JsonV::Array(items) if is_error_array_spec(items) => {
                let c = str_or_empty(items[0]);
                let m = str_or_empty(items[1]);
                if is_session_expired_code(c) {
                    OutcomeV::SessionExpired(c, m)
                } else {
                    OutcomeV::ApiError(c, m)
                }
            },
            _ => if is_success(code) {
                OutcomeV::Success(v)
            } else {
                OutcomeV::ApiError("HTTP "@ + status_text, rendered)
            },
        },
    }
}

/// The view of an optional JSON value.
pub open spec fn opt_json_view(v: Option<Json>) -> Option<JsonV> {
    match v {
        Some(j) => Some(j@),
        None => None,
    }
}

/// Whether `items` has GLPI's error shape.
pub fn is_error_array(items: &[Json]) -> (r: bool)
    ensures
        r == is_error_array_spec(view_items(items@)),
{
    if items.len() != 2 {
        return false;
    }
    match &items[0] {
        Json::Str(s) => {
            let c = chars_of(s.as_str());
            let pat = ['E', 'R', 'R', 'O', 'R'];
            proof {
                reveal_strlit("ERROR");
                assert(pat@ =~= "ERROR"@);
            }
            let r = occurs_at_exec(c.as_slice(), &pat, 0);
            proof {
                if c@.len() >= 5 {
                    assert(c@.subrange(0, 5) =~= c@.take(5));
                }
            }
            r
        },
        _ => false,
    }
}

fn str_or_empty_exec(v: &Json) -> (r: String)
    ensures
        r@ == str_or_empty(v@),
{
    match v {
        Json::Str(s) => copy_string(s),
        _ => String::new(),
    }
}

fn is_expired_code(code: &String) -> (r: bool)
    ensures
        r == is_session_expired_code(code@),
{
    let c = chars_of(code.as_str());
    crate::text::chars_eq_str(c.as_slice(), "ERROR_SESSION_TOKEN_INVALID")
        || crate::text::chars_eq_str(c.as_slice(), "ERROR_SESSION_TOKEN_MISSING")
}

/// Classifies a reply of GLPI.
pub fn classify(status: &HttpStatus, body: Option<Json>, text: &str, rendered: &str) -> (r: ResponseOutcome)
    requires
        100 <= status.code <= 999,
    ensures
        outcome_view(r) == classify_spec(status.code, opt_json_view(body), text@, rendered@),
{
    let ok = 200 <= status.code && status.code <= 299;
    match body {
        None => if ok {
            let mut members: Vec<(String, Json)> = Vec::new();
            members.push((owned("message"), Json::Str(owned("Success (empty response)"))));
            assert(crate::json::view_members(members@) =~= seq![("message"@, JsonV::Str("Success (empty response)"@))]);
            let v = Json::Object(members);
            ResponseOutcome::Success(v)
        } else {
            let mut msg: Vec<char> = Vec::new();
            extend_str(&mut msg, "HTTP ");
            extend_str(&mut msg, status_text(status.code).as_str());
            extend_str(&mut msg, ": ");
            let tc = chars_of(text);
            let t = truncate_chars(tc.as_slice(), 500);
            extend(&mut msg, t.as_slice());
            ResponseOutcome::Invalid(string_of(msg.as_slice()))
        },
        Some(v) => {
            let is_err = match &v {
                Json::Array(items) => is_error_array(items.as_slice()),
                _ => false,
            };
            if is_err {
                match &v {
                    Json::Array(items) => {
                        let c = str_or_empty_exec(&items[0]);
                        let m = str_or_empty_exec(&items[1]);
                        if is_expired_code(&c) {
                            ResponseOutcome::SessionExpired { code: c, message: m }
                        } else {
                            ResponseOutcome::ApiError { code: c, message: m }
                        }
                    },
                    _ => ResponseOutcome::Invalid(String::new()),
                }
            } else if ok {
                ResponseOutcome::Success(v)
            } else {
                let mut code: Vec<char> = Vec::new();
                extend_str(&mut code, "HTTP ");
                extend_str(&mut code, status_text(status.code).as_str());
                ResponseOutcome::ApiError { code: string_of(code.as_slice()), message: owned(rendered) }
            }
        },
    }
}

/// The full URL of an API endpoint.
pub open spec fn request_url_spec(base_url: Seq<char>, version: GlpiVersion, endpoint: Seq<char>) -> Seq<char> {
    base_url + spec_api_prefix(version) + endpoint
}

/// The full URL of an API endpoint: the base URL, the version's prefix, then the endpoint.
pub fn request_url(base_url: &str, version: GlpiVersion, endpoint: &str) -> (r: String)
    ensures
        r@ == request_url_spec(base_url@, version, endpoint@),
{
    let mut out: Vec<char> = Vec::new();
    extend_str(&mut out, base_url);
    extend_str(&mut out, version.api_prefix());
    extend_str(&mut out, endpoint);
    string_of(out.as_slice())
}

/// The URL that opens a session.
pub fn init_session_url(base_url: &str, version: GlpiVersion) -> (r: String)
    ensures
        r@ == request_url_spec(base_url@, version, "/initSession"@),
{
    request_url(base_url, version, "/initSession")
}

/// The value of the `Authorization` header that opens a session.
pub fn user_token_header(user_token: &str) -> (r: String)
    ensures
        r@ == "user_token "@ + user_token@,
{
    let mut out: Vec<char> = Vec::new();
    extend_str(&mut out, "user_token ");
    extend_str(&mut out, user_token);
    string_of(out.as_slice())
}

/// What the reply to `initSession` gives: the session token, or why there is none.
pub open spec fn init_session_spec(code: u16, body: Option<JsonV>, text: Seq<char>) -> Result<Seq<char>, ErrorV> {
    let status_text = status_text_spec(code);
    match body {
        None => Err(ErrorV::InvalidResponse("initSession HTTP "@ + status_text + ": "@ + truncate_spec(text, 500))),
        Some(v) => if !is_success(code) {
            Err(ErrorV::InvalidResponse("initSession failed with HTTP "@ + status_text + ": "@ + truncate_spec(text, 500)))
        } else {
            match jget_str(v, "session_token"@) {
                Some(t) => Ok(t),
                None => Err(ErrorV::InvalidResponse("initSession response missing session_token"@)),
            }
        },
    }
}

/// The view of a token result.
pub open spec fn token_result_view(r: Result<String, GlpiError>) -> Result<Seq<char>, ErrorV> {
    match r {
        Ok(t) => Ok(t@),
        Err(e) => Err(error_view(e)),
    }
}

/// Reads the session token out of the reply to `initSession`.
pub fn parse_init_session(status: &HttpStatus, body: Option<Json>, text: &str) -> (r: Result<String, GlpiError>)
    requires
        100 <= status.code <= 999,
    ensures
        token_result_view(r) == init_session_spec(status.code, opt_json_view(body), text@),
{
    let tc = chars_of(text);
    let t = truncate_chars(tc.as_slice(), 500);
    match body {
        None => {
            let mut msg: Vec<char> = Vec::new();
            extend_str(&mut msg, "initSession HTTP ");
            extend_str(&mut msg, status_text(status.code).as_str());
            extend_str(&mut msg, ": ");
            extend(&mut msg, t.as_slice());
            Err(GlpiError::InvalidResponse(string_of(msg.as_slice())))
        },
        Some(v) => {
            if !(200 <= status.code && status.code <= 299) {
                let mut msg: Vec<char> = Vec::new();
                extend_str(&mut msg, "initSession failed with HTTP ");
                extend_str(&mut msg, status_text(status.code).as_str());
                extend_str(&mut msg, ": ");
                extend(&mut msg, t.as_slice());
                return Err(GlpiError::InvalidResponse(string_of(msg.as_slice())));
            }
            match v.get_str("session_token") {
                Some(s) => Ok(copy_string(s)),
                None => Err(GlpiError::InvalidResponse(owned("initSession response missing session_token"))),
            }
        },
    }
}

/// Where a request stands.
#[derive(Debug, Clone, Copy, PartialEq, Eq, Structural)]
pub enum ClientState {
    /// A session is being opened; `renewing` when it replaces one GLPI refused.
    AwaitingSession { renewing: bool },
    /// The call was sent; `renewed` when it is the retry after a renewal.
    AwaitingResponse { renewed: bool },
}

/// What the transport reports back.
pub enum ClientEvent {
    /// The outcome of opening a session: its token, or the error.
    SessionOpened(Result<String, GlpiError>),
    /// GLPI replied: the status, the parsed body (`None` when it is no JSON), the raw
    /// text, and the parsed body written back as compact JSON.
    Responded { status: HttpStatus, body: Option<Json>, text: String, rendered: String },
    /// The call could not be made.
    SendFailed(GlpiError),
}

/// What the transport is asked to do next.
#[derive(Debug, PartialEq)]
pub enum ClientAction {
    /// Open a new session.
    OpenSession,
    /// Send the call with this session token.
    Send(String),
    /// The request is over, with this result.
    Finish(Result<Json, GlpiError>),
}

/// The next state, the action to perform, and a session token to keep for later calls.
#[derive(Debug, PartialEq)]
pub struct ClientStep {
    pub state: ClientState,
    pub action: ClientAction,
    pub store_token: Option<String>,
}

/// The mathematical form of an event.
pub enum EventV {
    SessionOpened(Result<Seq<char>, ErrorV>),
    Responded(u16, Option<JsonV>, Seq<char>, Seq<char>),
    SendFailed(ErrorV),
}

pub open spec fn event_view(e: ClientEvent) -> EventV {
    match e {
        ClientEvent::SessionOpened(r) => EventV::SessionOpened(token_result_view(r)),
        ClientEvent::Responded { status, body, text, rendered } => EventV::Responded(
            status.code,
            opt_json_view(body),
            text@,
            rendered@,
        ),
        ClientEvent::SendFailed(e) => EventV::SendFailed(error_view(e)),
    }
}

/// The mathematical form of an action.
pub enum ActionV {
    OpenSession,
    Send(Seq<char>),
    Finish(Result<JsonV, ErrorV>),
}

pub open spec fn action_view(a: ClientAction) -> ActionV {
    match a {
        ClientAction::OpenSession => ActionV::OpenSession,
        ClientAction::Send(t) => ActionV::Send(t@),
        ClientAction::Finish(r) => ActionV::Finish(result_view(r)),
    }
}

/// The mathematical form of a step.
pub struct StepV {
    pub state: ClientState,
    pub action: ActionV,
    pub store_token: Option<Seq<char>>,
}

pub open spec fn step_view(s: ClientStep) -> StepV {
    StepV {
        state: s.state,
        action: action_view(s.action),
        store_token: match s.store_token {
            Some(t) => Some(t@),
            None => None,
        },
    }
}

/// The result a request ends with: a success is compacted, GLPI's errors become errors.
pub open spec fn finish_spec(o: OutcomeV) -> Result<JsonV, ErrorV> {
    match o {
        OutcomeV::Success(v) => Ok(compact_spec(v)),
        OutcomeV::SessionExpired(c, m) => Err(ErrorV::SessionInvalid(c, m)),
        OutcomeV::ApiError(c, m) => Err(ErrorV::Api(c, m)),
        OutcomeV::Invalid(t) => Err(ErrorV::InvalidResponse(t)),
    }
}

/// The first step of a request: send with the cached token, or open a session first.
pub open spec fn start_spec(cached: Option<Seq<char>>) -> StepV {
    match cached {
        Some(t) => StepV { state: ClientState::AwaitingResponse { renewed: false }, action: ActionV::Send(t), store_token: None },
        None => StepV { state: ClientState::AwaitingSession { renewing: false }, action: ActionV::OpenSession, store_token: None },
    }
}

/// The event answers the action that `state` waits on, and a reply's status is one that
/// `http::StatusCode` holds (100 to 999).
pub open spec fn event_fits(state: ClientState, e: EventV) -> bool {
    &&& match state {
        ClientState::AwaitingSession { .. } => e is SessionOpened,
        ClientState::AwaitingResponse { .. } => !(e is SessionOpened),
    }
    &&& (e matches EventV::Responded(code, _, _, _) ==> 100 <= code <= 999)
}

/// The step that follows `state` when `e` happens. A reply with status 401, or one that
/// says the session expired, opens a new session and sends once more, but only once.
pub open spec fn next_spec(state: ClientState, e: EventV) -> StepV {
    match (state, e) {
        (ClientState::AwaitingSession { renewing }, EventV::SessionOpened(Ok(t))) => StepV {
            state: ClientState::AwaitingResponse { renewed: renewing },
            action: ActionV::Send(t),
            store_token: Some(t),
        },
        (ClientState::AwaitingSession { .. }, EventV::SessionOpened(Err(err))) => StepV {
            state,
            action: ActionV::Finish(Err(err)),
            store_token: None,
        },
        (ClientState::AwaitingResponse { .. }, EventV::SendFailed(err)) => StepV {
            state,
            action: ActionV::Finish(Err(err)),
            store_token: None,
        },
        (ClientState::AwaitingResponse { renewed }, EventV::Responded(code, body, text, rendered)) => {
            let o = classify_spec(code, body, text, rendered);
            if !renewed && (code == 401 || o is SessionExpired) {
                StepV {
                    state: ClientState::AwaitingSession { renewing: true },
                    action: ActionV::OpenSession,
                    store_token: None,
                }
            } else {
                StepV { state, action: ActionV::Finish(finish_spec(o)), store_token: None }
            }
        },
        _ => StepV { state, action: ActionV::OpenSession, store_token: None },
    }
}

/// The first step of a request, given the session token cached so far.
pub fn request_start(cached: Option<String>) -> (r: ClientStep)
    ensures
        step_view(r) == start_spec(match cached {
            Some(t) => Some(t@),
            None => None,
        }),
{
    match cached {
        Some(t) => ClientStep { state: ClientState::AwaitingResponse { renewed: false }, action: ClientAction::Send(t), store_token: None },
        None => ClientStep { state: ClientState::AwaitingSession { renewing: false }, action: ClientAction::OpenSession, store_token: None },
    }
}

fn finish(o: ResponseOutcome) -> (r: Result<Json, GlpiError>)
    ensures
        result_view(r) == finish_spec(outcome_view(o)),
{
    match o {
        ResponseOutcome::Success(v) => Ok(compacted(&v)),
        ResponseOutcome::SessionExpired { code, message } => Err(GlpiError::SessionInvalid { code, message }),
        ResponseOutcome::ApiError { code, message } => Err(GlpiError::Api { code, message }),
        ResponseOutcome::Invalid(t) => Err(GlpiError::InvalidResponse(t)),
    }
}

/// The step that follows `state` when `event` happens.
pub fn request_next(state: ClientState, event: ClientEvent) -> (r: ClientStep)
    requires
        event_fits(state, event_view(event)),
    ensures
        step_view(r) == next_spec(state, event_view(event)),
{
    match event {
        ClientEvent::SessionOpened(Ok(t)) => {
            let renewing = match state {
                ClientState::AwaitingSession { renewing } => renewing,
                ClientState::AwaitingResponse { .. } => false,
            };
            let kept = copy_string(&t);
            ClientStep {
                state: ClientState::AwaitingResponse { renewed: renewing },
                action: ClientAction::Send(t),
                store_token: Some(kept),
            }
        },
        ClientEvent::SessionOpened(Err(e)) => ClientStep { state, action: ClientAction::Finish(Err(e)), store_token: None },
        ClientEvent::SendFailed(e) => ClientStep { state, action: ClientAction::Finish(Err(e)), store_token: None },
        ClientEvent::Responded { status, body, text, rendered } => {
            let renewed = match state {
                ClientState::AwaitingResponse { renewed } => renewed,
                ClientState::AwaitingSession { .. } => true,
            };
            let o = classify(&status, body, text.as_str(), rendered.as_str());
            let expired = match &o {
                ResponseOutcome::SessionExpired { .. } => true,
                _ => false,
            };
            if !renewed && (status.code == 401 || expired) {
                ClientStep {
                    state: ClientState::AwaitingSession { renewing: true },
                    action: ClientAction::OpenSession,
                    store_token: None,
                }
            } else {
                ClientStep { state, action: ClientAction::Finish(finish(o)), store_token: None }
            }
        },
    }
}

/// A request that GLPI answered with 401 or with an expired-session error on its first
/// try opens a new session and is sent again; the reply to that second try ends the
/// request, whatever it is. So no request is sent more than twice.
pub proof fn lemma_retry_at_most_once(code: u16, body: Option<JsonV>, text: Seq<char>, rendered: Seq<char>)
    ensures
        next_spec(ClientState::AwaitingResponse { renewed: true }, EventV::Responded(code, body, text, rendered)).action is Finish,
        (code == 401 || classify_spec(code, body, text, rendered) is SessionExpired) ==> {
            let s = next_spec(ClientState::AwaitingResponse { renewed: false }, EventV::Responded(code, body, text, rendered));
            s.action is OpenSession && s.state == (ClientState::AwaitingSession { renewing: true })
        },
{
}

/// A token just obtained is kept, and the call goes out with exactly that token.
pub proof fn lemma_new_token_is_kept_and_used(renewing: bool, t: Seq<char>)
    ensures
        next_spec(ClientState::AwaitingSession { renewing }, EventV::SessionOpened(Ok(t))).store_token == Some(t),
        next_spec(ClientState::AwaitingSession { renewing }, EventV::SessionOpened(Ok(t))).action == ActionV::Send(t),
{
}

} // verus!
