use glpi_mcp::call::Method;
use glpi_mcp::error::GlpiError;
use glpi_mcp::json::Json;
use glpi_mcp::serve::{allowed_hosts, bearer_token_matches, bind_address, http_transport};
use glpi_mcp::step::Step;
use glpi_mcp::tools::followups::{add_followup_answer, list_followups_answer, AddFollowupParams};
use glpi_mcp::tools::rules::{find_group_rule_references_next, find_group_rule_references_start, FindGroupRuleReferencesParams};
use glpi_mcp::tools::session::{kill_session_finish, kill_session_start};
use glpi_mcp::tools::solutions::get_solution_answer;
use glpi_mcp::tools::users_groups::{create_group_call, get_users_answer, update_group_start, CreateGroupParams, UpdateGroupParams};
use glpi_mcp::tools::hierarchy::keep_parent_next;
use glpi_mcp::tools::tickets::{merge_tickets_next, merge_tickets_start, MergeTicketsParams};

fn obj(members: Vec<(&str, Json)>) -> Json {
    Json::Object(members.into_iter().map(|(k, v)| (k.to_string(), v)).collect())
}

fn s(v: &str) -> Json {
    Json::Str(v.to_string())
}

#[test]
fn renaming_a_group_keeps_its_parent() {
    let p = UpdateGroupParams { group_id: 7, update_fields: vec![("name".to_string(), s("Ops"))] };
    let step = update_group_start(&p);
    let (st, c) = match step {
        Step::Call(st, c) => (st, c),
        Step::Done(_) => panic!("expected a call"),
    };
    assert_eq!(c.method, Method::Get);
    assert_eq!(c.endpoint, "/Group/7");
    let step = keep_parent_next(st, Ok(obj(vec![("id", Json::Int(7)), ("groups_id", Json::Int(3))])));
    let (st, c) = match step {
        Step::Call(st, c) => (st, c),
        Step::Done(_) => panic!("expected a call"),
    };
    assert_eq!(c.method, Method::Put);
    assert_eq!(
        c.body,
        Some(obj(vec![("input", obj(vec![("name", s("Ops")), ("groups_id", Json::Int(3))]))]))
    );
    match keep_parent_next(st, Ok(Json::Null)) {
        Step::Done(r) => assert_eq!(r, Ok("Group #7 updated.".to_string())),
        Step::Call(..) => panic!("expected the end"),
    }
}

#[test]
fn other_group_updates_write_at_once() {
    let p = UpdateGroupParams { group_id: 7, update_fields: vec![("comment".to_string(), s("c"))] };
    match update_group_start(&p) {
        Step::Call(_, c) => {
            assert_eq!(c.method, Method::Put);
            assert_eq!(c.body, Some(obj(vec![("input", obj(vec![("comment", s("c"))]))])));
        },
        Step::Done(_) => panic!("expected a call"),
    }
}

#[test]
fn new_groups_send_flags_as_numbers() {
    let p = CreateGroupParams {
        name: "G".to_string(),
        comment: None,
        parent_group_id: Some(2),
        entities_id: 0,
        is_recursive: false,
        is_requester: true,
        is_watcher: true,
        is_assign: true,
        is_task: true,
        is_itemgroup: true,
        is_usergroup: true,
        is_manager: true,
        is_notify: true,
    };
    let c = create_group_call(&p);
    let input = c.body.unwrap();
    let input = input.get("input").unwrap();
    assert_eq!(input.get("is_recursive"), Some(&Json::Int(0)));
    assert_eq!(input.get("is_notify"), Some(&Json::Int(1)));
    assert_eq!(input.get("groups_id"), Some(&Json::Int(2)));
    assert!(input.get("comment").is_none());
}

#[test]
fn users_table_marks_inactive_accounts() {
    let reply = Json::Array(vec![
        obj(vec![("id", Json::Int(1)), ("name", s("ann")), ("firstname", s("Ann")), ("realname", s("A")), ("is_active", Json::Int(0))]),
        obj(vec![("id", Json::Int(2)), ("name", s("bob"))]),
    ]);
    let out = get_users_answer(Ok(reply)).unwrap();
    assert_eq!(
        out,
        "**2 user(s)**\n\n| ID | Login | First name | Last name | Active |\n|---|---|---|---|---|\n| 1 | ann | Ann | A | no |\n| 2 | bob |  |  | yes |"
    );
    assert_eq!(get_users_answer(Ok(Json::Array(vec![]))), Ok("No users.".to_string()));
    assert_eq!(get_users_answer(Err(GlpiError::Timeout)), Err("request timed out".to_string()));
}

#[test]
fn followups_render_as_blocks() {
    let reply = Json::Array(vec![
        obj(vec![("id", Json::Int(4)), ("date", s("2024-01-01")), ("is_private", Json::Int(1)), ("content", s("<p>hi</p>"))]),
        obj(vec![("id", Json::Int(5)), ("date", s("2024-01-02")), ("content", s("ok"))]),
    ]);
    let out = list_followups_answer(Ok(reply)).unwrap();
    assert_eq!(out, "**2 followup(s)**\n\n**#4 — 2024-01-01 (private)**\n\nhi\n\n---\n\n**#5 — 2024-01-02**\n\nok");
    assert_eq!(list_followups_answer(Ok(Json::Null)), Ok("No followups.".to_string()));
    let p = AddFollowupParams { ticket_id: 9, content: "x".to_string(), is_private: false };
    assert_eq!(add_followup_answer(&p, Ok(obj(vec![("id", Json::Int(12))]))), Ok("Followup #12 added to ticket #9.".to_string()));
}

#[test]
fn solutions_render_with_dates() {
    let reply = Json::Array(vec![obj(vec![("date_creation", s("d")), ("content", s("&lt;b&gt;done&lt;/b&gt;"))])]);
    assert_eq!(get_solution_answer(Ok(reply)), Ok("**d**\n\ndone".to_string()));
    assert_eq!(get_solution_answer(Ok(Json::Array(vec![]))), Ok("No solution recorded for this ticket.".to_string()));
}

#[test]
fn closing_without_a_session_does_nothing() {
    assert_eq!(kill_session_start(false), Ok(obj(vec![("message", s("No active session."))])));
    match kill_session_start(true) {
        Err(c) => assert_eq!(c.endpoint, "/killSession"),
        Ok(_) => panic!("expected a call"),
    }
    let closed = kill_session_finish(Ok(Json::Null));
    assert_eq!(closed.answer, Ok(obj(vec![("message", s("Session closed."))])));
    assert_eq!(closed.token, None);
    let failed = kill_session_finish(Err(GlpiError::Timeout));
    assert_eq!(failed.answer, Err(GlpiError::Timeout));
    assert_eq!(failed.token, None);
}

#[test]
fn http_transport_settings() {
    assert!(http_transport(Some("http")));
    assert!(!http_transport(Some("HTTP")));
    assert!(!http_transport(None));
    assert_eq!(bind_address(None), "127.0.0.1:8000");
    assert_eq!(bind_address(Some("0.0.0.0:9".to_string())), "0.0.0.0:9");
    assert_eq!(allowed_hosts(" a.example , b ,"), vec!["a.example".to_string(), "b".to_string(), String::new()]);
    assert!(bearer_token_matches("sekret", Some("Bearer sekret")));
    assert!(!bearer_token_matches("sekret", Some("bearer sekret")));
    assert!(!bearer_token_matches("sekret", Some("Bearer sekret2")));
    assert!(!bearer_token_matches("sekret", None));
}

#[test]
fn group_references_are_found_in_criteria_and_actions() {
    let mut step = find_group_rule_references_start(&FindGroupRuleReferencesParams { group_id: 3 });
    let rules = obj(vec![("data", Json::Array(vec![obj(vec![("2", s("10")), ("1", s("Route")), ("8", Json::Int(1))])]))]);
    let criteria = Json::Array(vec![
        obj(vec![("id", Json::Int(100)), ("criteria", s("_groups_id_assign")), ("pattern", s("3"))]),
        obj(vec![("id", Json::Int(101)), ("criteria", s("name")), ("pattern", s("3"))]),
    ]);
    let actions = Json::Array(vec![obj(vec![("id", Json::Int(200)), ("field", s("_GROUPS_ID_requester")), ("value", Json::Int(3))])]);
    let mut replies = vec![actions, criteria, rules];
    let out = loop {
        match step {
            Step::Call(st, _) => step = find_group_rule_references_next(st, Ok(replies.pop().unwrap())),
            Step::Done(r) => break r.unwrap(),
        }
    };
    assert_eq!(
        out,
        "**2 match(es) referencing group #3**\n\n| Rule ID | Rule name | Active | Kind | Field | Value | Row ID |\n|---|---|---|---|---|---|---|\n| 10 | Route | yes | criteria | _groups_id_assign | 3 | 100 |\n| 10 | Route | yes | action | _GROUPS_ID_requester | 3 | 200 |"
    );
}

#[test]
fn merging_links_copies_closes_and_reports_failures() {
    let p = MergeTicketsParams { target_ticket_id: 1, source_ticket_ids: vec![2, 3], add_followups: true, close_source: true };
    let mut step = merge_tickets_start(&p);
    let mut calls: Vec<(Method, String)> = Vec::new();
    let mut bodies: Vec<Option<Json>> = Vec::new();
    let mut replies: Vec<Result<Json, GlpiError>> = vec![
        Err(GlpiError::Timeout),
        Ok(Json::Null),
        Ok(Json::Null),
        Ok(Json::Null),
        Ok(Json::Array(vec![obj(vec![("content", s("hello")), ("is_private", Json::Int(1))])])),
        Ok(obj(vec![("id", Json::Int(50))])),
    ];
    let summary = loop {
        match step {
            Step::Call(st, c) => {
                calls.push((c.method, c.endpoint.clone()));
                bodies.push(c.body);
                step = merge_tickets_next(st, replies.pop().unwrap());
            },
            Step::Done(r) => break r.unwrap(),
        }
    };
    assert_eq!(
        calls,
        vec![
            (Method::Post, "/Ticket_Ticket".to_string()),
            (Method::Get, "/Ticket/2/ITILFollowup".to_string()),
            (Method::Post, "/ITILFollowup".to_string()),
            (Method::Post, "/ITILFollowup".to_string()),
            (Method::Put, "/Ticket/2".to_string()),
            (Method::Post, "/Ticket_Ticket".to_string()),
        ]
    );
    let copied = bodies[2].as_ref().unwrap().get("input").unwrap();
    assert_eq!(copied.get("content"), Some(&s("[Merged from ticket #2] hello")));
    assert_eq!(copied.get("is_private"), Some(&Json::Int(1)));
    assert_eq!(bodies[4], Some(obj(vec![("input", obj(vec![("status", Json::Int(6))]))])));
    assert_eq!(
        summary,
        obj(vec![
            ("target_ticket_id", Json::Int(1)),
            (
                "merged",
                Json::Array(vec![obj(vec![
                    ("source_ticket_id", Json::Int(2)),
                    ("link", obj(vec![("id", Json::Int(50))])),
                    ("followups_copied", Json::Int(1)),
                    ("closed", Json::Bool(true)),
                ])])
            ),
            ("errors", Json::Array(vec![obj(vec![("source_ticket_id", Json::Int(3)), ("error", s("request timed out"))])])),
        ])
    );
}
