//! Closing the GLPI session.
use vstd::prelude::*;
use crate::call::{get, get_v, push_member, Call, CallV};
use crate::error::GlpiError;
use crate::json::{owned, view_members, Json, JsonV};
use crate::client::{error_view, result_view, start_spec, ActionV, ClientState, ErrorV};

verus! {

broadcast use vstd::string::group_string_axioms;

/// `{"message": text}`.
pub open spec fn message_json(text: Seq<char>) -> JsonV {
    JsonV::Object(seq![("message"@, JsonV::Str(text))])
}

fn message(text: &str) -> (r: Json)
    ensures
        r@ == message_json(text@),
{
    let mut m: Vec<(String, Json)> = Vec::new();
    push_member(&mut m, "message", Json::Str(owned(text)));
    assert(view_members(m@) =~= seq![("message"@, JsonV::Str(text@))]);
    Json::Object(m)
}

/// What closing the session starts with: nothing to close without a session (and no
/// session is opened for it), else the call that closes it.
pub fn kill_session_start(has_session: bool) -> (r: Result<Json, Call>)
    ensures
        has_session ==> (r matches Err(c) && crate::call::call_view(c) == get_v("/killSession"@)),
        !has_session ==> (r matches Ok(v) && v@ == message_json("No active session."@)),
{
    if has_session {
        Err(get(owned("/killSession")))
    } else {
        Ok(message("No active session."))
    }
}

/// What closing the session leaves: the answer, and the session token kept for later calls.
pub struct SessionClosed {
    pub answer: Result<Json, GlpiError>,
    pub token: Option<String>,
}

/// The outcome once the closing call returned: its error, or a confirmation. The session is
/// forgotten either way, so the next request opens a new one.
pub fn kill_session_finish(r: Result<Json, GlpiError>) -> (out: SessionClosed)
    ensures
        match r {
            Ok(_) => out.answer matches Ok(v) && v@ == message_json("Session closed."@),
            Err(e) => out.answer matches Err(x) && error_view(x) == error_view(e),
        },
        out.token is None,
{
    let answer = match r {
        Ok(_) => Ok(message("Session closed.")),
        Err(e) => Err(e),
    };
    SessionClosed { answer, token: None }
}

/// With no session token kept, as after closing the session, a request first opens a new
/// session and sends nothing before.
pub proof fn lemma_closed_session_reopens()
    ensures
        start_spec(None).action == ActionV::OpenSession,
        start_spec(None).state == (ClientState::AwaitingSession { renewing: false }),
{
}

} // verus!
