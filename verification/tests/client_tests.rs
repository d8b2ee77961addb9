use glpi_mcp::client::{
    classify, init_session_url, parse_init_session, request_next, request_start, request_url, user_token_header,
    ClientAction, ClientEvent, ClientState, HttpStatus, ResponseOutcome,
};
use glpi_mcp::config::GlpiVersion;
use glpi_mcp::error::GlpiError;
use glpi_mcp::json::Json;
use glpi_mcp::search_options::{
    lookup_finish, lookup_start, resolve_field, search_mapping, search_options_call, Lookup, SearchOptionsCache,
};

fn obj(members: Vec<(&str, Json)>) -> Json {
    Json::Object(members.into_iter().map(|(k, v)| (k.to_string(), v)).collect())
}

fn s(v: &str) -> Json {
    Json::Str(v.to_string())
}

fn status(code: u16) -> HttpStatus {
    HttpStatus { code }
}

fn reply(code: u16, body: Option<Json>) -> ClientEvent {
    ClientEvent::Responded { status: status(code), body, text: String::new(), rendered: String::new() }
}

fn ids(n: i128) -> Json {
    Json::Array(vec![obj(vec![("id", Json::Int(n))])])
}

#[test]
fn lazily_initializes_session_then_reuses_it() {
    let first = request_start(None);
    assert_eq!(first.action, ClientAction::OpenSession);
    assert_eq!(first.state, ClientState::AwaitingSession { renewing: false });
    let sent = request_next(first.state, ClientEvent::SessionOpened(Ok("tok-1".to_string())));
    assert_eq!(sent.action, ClientAction::Send("tok-1".to_string()));
    assert_eq!(sent.store_token, Some("tok-1".to_string()));
    let done = request_next(sent.state, reply(200, Some(ids(1))));
    assert_eq!(done.action, ClientAction::Finish(Ok(ids(1))));
    let again = request_start(Some("tok-1".to_string()));
    assert_eq!(again.action, ClientAction::Send("tok-1".to_string()));
}

#[test]
fn renews_session_on_401_and_retries() {
    let first = request_start(None);
    assert_eq!(first.action, ClientAction::OpenSession);
    let opened = request_next(first.state, ClientEvent::SessionOpened(Ok("tok-1".to_string())));
    assert_eq!(opened.action, ClientAction::Send("tok-1".to_string()));
    let renew = request_next(opened.state, reply(401, None));
    assert_eq!(renew.action, ClientAction::OpenSession);
    assert_eq!(renew.state, ClientState::AwaitingSession { renewing: true });
    let sent = request_next(renew.state, ClientEvent::SessionOpened(Ok("tok-1".to_string())));
    assert_eq!(sent.action, ClientAction::Send("tok-1".to_string()));
    assert_eq!(sent.store_token, Some("tok-1".to_string()));
    let done = request_next(sent.state, reply(200, Some(ids(42))));
    assert_eq!(done.action, ClientAction::Finish(Ok(ids(42))));
}

#[test]
fn renews_session_on_error_array_shape() {
    let first = request_start(None);
    let opened = request_next(first.state, ClientEvent::SessionOpened(Ok("tok-1".to_string())));
    assert_eq!(opened.action, ClientAction::Send("tok-1".to_string()));
    let expired = Json::Array(vec![s("ERROR_SESSION_TOKEN_INVALID"), s("session gone")]);
    let renew = request_next(opened.state, reply(200, Some(expired)));
    assert_eq!(renew.action, ClientAction::OpenSession);
    let sent = request_next(renew.state, ClientEvent::SessionOpened(Ok("tok-1".to_string())));
    let done = request_next(sent.state, reply(200, Some(ids(7))));
    assert_eq!(done.action, ClientAction::Finish(Ok(ids(7))));
}

#[test]
fn surfaces_object_shaped_api_errors() {
    let first = request_start(None);
    let opened = request_next(first.state, ClientEvent::SessionOpened(Ok("tok-1".to_string())));
    assert_eq!(opened.action, ClientAction::Send("tok-1".to_string()));
    let body = obj(vec![("error", s("ERROR_ITEM_NOT_FOUND")), ("message", s("no such ticket"))]);
    let done = request_next(
        opened.state,
        ClientEvent::Responded {
            status: status(400),
            body: Some(body),
            text: String::new(),
            rendered: "{\"error\":\"ERROR_ITEM_NOT_FOUND\",\"message\":\"no such ticket\"}".to_string(),
        },
    );
    match done.action {
        ClientAction::Finish(Err(GlpiError::Api { code, message })) => {
            assert_eq!(code, "HTTP 400 Bad Request");
            assert_eq!(message, "{\"error\":\"ERROR_ITEM_NOT_FOUND\",\"message\":\"no such ticket\"}");
        },
        other => panic!("unexpected {:?}", other),
    }
}

#[test]
fn a_second_refusal_ends_the_request() {
    let first = request_start(Some("old".to_string()));
    let renew = request_next(first.state, reply(401, None));
    let sent = request_next(renew.state, ClientEvent::SessionOpened(Ok("new".to_string())));
    let done = request_next(sent.state, reply(401, None));
    assert!(matches!(done.action, ClientAction::Finish(Err(GlpiError::InvalidResponse(_)))));
}

#[test]
fn session_and_send_failures_end_the_request() {
    let first = request_start(None);
    let done = request_next(first.state, ClientEvent::SessionOpened(Err(GlpiError::Timeout)));
    assert_eq!(done.action, ClientAction::Finish(Err(GlpiError::Timeout)));
    let first = request_start(Some("t".to_string()));
    let done = request_next(first.state, ClientEvent::SendFailed(GlpiError::Http("refused".to_string())));
    assert_eq!(done.action, ClientAction::Finish(Err(GlpiError::Http("refused".to_string()))));
}

#[test]
fn successful_replies_are_compacted() {
    let first = request_start(Some("t".to_string()));
    let body = obj(vec![("id", Json::Int(3)), ("links", Json::Array(vec![]))]);
    let done = request_next(first.state, reply(200, Some(body)));
    assert_eq!(done.action, ClientAction::Finish(Ok(obj(vec![("id", Json::Int(3))]))));
}

#[test]
fn classify_covers_every_reply_shape() {
    assert_eq!(
        classify(&status(204), None, "", ""),
        ResponseOutcome::Success(obj(vec![("message", s("Success (empty response)"))]))
    );
    assert_eq!(
        classify(&status(502), None, "<html>", ""),
        ResponseOutcome::Invalid("HTTP 502 Bad Gateway: <html>".to_string())
    );
    assert_eq!(
        classify(&status(200), Some(Json::Array(vec![s("ERROR_RIGHT_MISSING"), s("no")])), "", ""),
        ResponseOutcome::ApiError { code: "ERROR_RIGHT_MISSING".to_string(), message: "no".to_string() }
    );
    assert_eq!(
        classify(&status(200), Some(Json::Array(vec![s("ERROR_SESSION_TOKEN_MISSING"), s("x")])), "", ""),
        ResponseOutcome::SessionExpired { code: "ERROR_SESSION_TOKEN_MISSING".to_string(), message: "x".to_string() }
    );
}

#[test]
fn urls_and_headers() {
    assert_eq!(request_url("http://g", GlpiVersion::V10, "/Ticket"), "http://g/apirest.php/Ticket");
    assert_eq!(request_url("http://g", GlpiVersion::V11, "/Ticket"), "http://g/api.php/v1/Ticket");
    assert_eq!(init_session_url("http://g", GlpiVersion::V10), "http://g/apirest.php/initSession");
    assert_eq!(user_token_header("abc"), "user_token abc");
}

#[test]
fn init_session_reads_the_token_or_says_why_not() {
    let ok = parse_init_session(&status(200), Some(obj(vec![("session_token", s("tok"))])), "");
    assert_eq!(ok, Ok("tok".to_string()));
    let missing = parse_init_session(&status(200), Some(obj(vec![])), "{}");
    assert_eq!(missing, Err(GlpiError::InvalidResponse("initSession response missing session_token".to_string())));
    let refused = parse_init_session(&status(401), Some(Json::Array(vec![])), "[]");
    assert_eq!(refused, Err(GlpiError::InvalidResponse("initSession failed with HTTP 401 Unauthorized: []".to_string())));
    let not_json = parse_init_session(&status(500), None, "oops");
    assert_eq!(not_json, Err(GlpiError::InvalidResponse("initSession HTTP 500 Internal Server Error: oops".to_string())));
}

#[test]
fn resolves_search_field_id_via_discovery() {
    let c = search_options_call("KnowbaseItem");
    assert_eq!(c.endpoint, "/listSearchOptions/KnowbaseItem");
    let reply = obj(vec![("12", obj(vec![("field", s("name"))])), ("13", obj(vec![("field", s("answer"))]))]);
    let mapping = search_mapping(Ok(reply));
    assert_eq!(resolve_field(&mapping, "name", "6"), "12");
    assert_eq!(resolve_field(&mapping, "NAME", "6"), "12");
    assert_eq!(resolve_field(&mapping, "answer", "7"), "13");
}

#[test]
fn falls_back_to_default_field_id_when_discovery_unavailable() {
    let mapping = search_mapping(Err(GlpiError::Api { code: "HTTP 404 Not Found".to_string(), message: String::new() }));
    assert_eq!(resolve_field(&mapping, "name", "6"), "6");
    let error_object = obj(vec![("error", s("E")), ("detail", s("d"))]);
    let mapping = search_mapping(Ok(error_object));
    assert_eq!(resolve_field(&mapping, "name", "6"), "6");
}

#[test]
fn discovery_keeps_the_first_numeric_id_of_each_column() {
    let reply = obj(vec![
        ("common", obj(vec![("name", s("Characteristics"))])),
        ("1", obj(vec![("field", s(" Name "))])),
        ("2", obj(vec![("field", s("name"))])),
        ("x3", obj(vec![("field", s("id"))])),
        ("4", obj(vec![("field", s("   "))])),
    ]);
    let mapping = search_mapping(Ok(reply));
    assert_eq!(mapping, vec![("name".to_string(), "1".to_string())]);
}

#[test]
fn an_expired_session_after_renewal_is_an_error() {
    let first = request_start(Some("old".to_string()));
    let expired = || Json::Array(vec![s("ERROR_SESSION_TOKEN_INVALID"), s("gone")]);
    let renew = request_next(first.state, reply(200, Some(expired())));
    let sent = request_next(renew.state, ClientEvent::SessionOpened(Ok("new".to_string())));
    let done = request_next(sent.state, reply(200, Some(expired())));
    assert_eq!(
        done.action,
        ClientAction::Finish(Err(GlpiError::SessionInvalid {
            code: "ERROR_SESSION_TOKEN_INVALID".to_string(),
            message: "gone".to_string()
        }))
    );
}

#[test]
fn statuses_show_their_reason() {
    assert_eq!(
        classify(&status(599), None, "x", ""),
        ResponseOutcome::Invalid("HTTP 599 <unknown status code>: x".to_string())
    );
    assert_eq!(
        classify(&status(404), Some(obj(vec![])), "{}", "{}"),
        ResponseOutcome::ApiError { code: "HTTP 404 Not Found".to_string(), message: "{}".to_string() }
    );
}

#[test]
fn discovered_mappings_are_cached_by_item_type() {
    let mut cache = SearchOptionsCache::new();
    assert_eq!(cache.get("KnowbaseItem"), None);
    let m = search_mapping(Ok(obj(vec![("12", obj(vec![("field", s("name"))]))])));
    cache.insert("KnowbaseItem", m);
    cache.insert("Ticket", Vec::new());
    let got = cache.get("KnowbaseItem").unwrap();
    assert_eq!(resolve_field(&got, "name", "6"), "12");
    assert_eq!(cache.get("Ticket"), Some(Vec::new()));
    cache.insert("Ticket", vec![("id".to_string(), "2".to_string())]);
    assert_eq!(cache.get("Ticket"), Some(vec![("id".to_string(), "2".to_string())]));
    assert_eq!(cache.get("Group"), None);
}

#[test]
fn a_second_lookup_of_an_item_type_sends_no_call() {
    let mut cache = SearchOptionsCache::new();
    let call = match lookup_start(&cache, "KnowbaseItem") {
        Lookup::Fetch(c) => c,
        Lookup::Cached(_) => panic!("an empty cache has nothing cached"),
    };
    assert_eq!(call.endpoint, "/listSearchOptions/KnowbaseItem");
    let reply = Ok(obj(vec![("12", obj(vec![("field", s(" Name "))])), ("x", obj(vec![("field", s("id"))]))]));
    let m = lookup_finish(&mut cache, "KnowbaseItem", reply);
    assert_eq!(resolve_field(&m, "NAME", "6"), "12");
    assert_eq!(resolve_field(&m, "id", "2"), "2");
    // A failed discovery is cached too, as an empty mapping.
    let failed = lookup_finish(&mut cache, "Ticket", Err(glpi_mcp::error::GlpiError::Timeout));
    assert!(failed.is_empty());
    match lookup_start(&cache, "KnowbaseItem") {
        Lookup::Cached(again) => {
            assert_eq!(again, m);
            assert_eq!(resolve_field(&again, "name", "6"), "12");
        }
        Lookup::Fetch(_) => panic!("the mapping was cached"),
    }
    assert!(matches!(lookup_start(&cache, "Ticket"), Lookup::Cached(ref v) if v.is_empty()));
}
