use glpi_mcp::config::Language;
use glpi_mcp::json::Json;
use glpi_mcp::labels::Labels;
use glpi_mcp::step::Step;
use glpi_mcp::tools::stats::{
    elapsed, fetch_ticket_rows_next, fetch_ticket_rows_start, overdue_answer, overdue_tickets, resolution_times,
    stats_by_assignee, stats_by_category, stats_by_priority, stats_by_status, stats_by_type, OverdueTicket,
};

fn obj(members: Vec<(&str, Json)>) -> Json {
    Json::Object(members.into_iter().map(|(k, v)| (k.to_string(), v)).collect())
}

fn s(v: &str) -> Json {
    Json::Str(v.to_string())
}

fn search_row(status: i64) -> Json {
    obj(vec![("12", s(&status.to_string()))])
}

fn param(c: &glpi_mcp::call::Call, key: &str) -> Option<String> {
    c.query.clone().unwrap_or_default().into_iter().find(|(k, _)| k == key).map(|(_, v)| v)
}

#[test]
fn stats_by_status_paginates_across_multiple_pages() {
    let page_1: Vec<Json> = (0..500).map(|_| search_row(1)).collect();
    let page_2: Vec<Json> = (0..50).map(|_| search_row(2)).collect();
    let mut pages = vec![page_2, page_1];
    let mut ranges = Vec::new();
    let mut step = fetch_ticket_rows_start(&["12"]);
    let rows = loop {
        match step {
            Step::Call(st, c) => {
                assert_eq!(c.endpoint, "/search/Ticket");
                assert_eq!(param(&c, "forcedisplay[0]"), Some("12".to_string()));
                ranges.push(param(&c, "range").unwrap());
                let page = pages.pop().unwrap();
                step = fetch_ticket_rows_next(st, Ok(obj(vec![("data", Json::Array(page))])));
            },
            Step::Done(r) => break r.unwrap(),
        }
    };
    assert_eq!(ranges, vec!["0-499".to_string(), "500-999".to_string()]);
    let labels = Labels::for_language(Language::En);
    let result = stats_by_status(&labels, &rows);
    assert!(result.contains("Total tickets: 550"));
    assert!(result.contains("| New | 500 |"));
    assert!(result.contains("| In progress (assigned) | 50 |"));
}

#[test]
fn status_table_lists_every_status_by_count_then_label() {
    let labels = Labels::for_language(Language::En);
    let rows = vec![search_row(5), search_row(2), search_row(5), obj(vec![("12", Json::Int(9))])];
    let result = stats_by_status(&labels, &rows);
    assert_eq!(
        result,
        "**Total tickets: 4**\n\n| Label | Count |\n|---|---|\n| Solved | 2 |\n| In progress (assigned) | 1 |\n| Unknown | 1 |\n| Closed | 0 |\n| In progress (planned) | 0 |\n| New | 0 |\n| Pending | 0 |"
    );
}

#[test]
fn type_counts_add_up_to_the_total() {
    let labels = Labels::for_language(Language::En);
    let rows = vec![obj(vec![("14", Json::Int(1))]), obj(vec![("14", s("2"))]), obj(vec![("14", s("x"))])];
    let result = stats_by_type(&labels, &rows);
    assert_eq!(
        result,
        "**Total tickets: 3**\n\n| Label | Count |\n|---|---|\n| Incident | 1 |\n| Service request | 1 |\n| Unknown | 1 |"
    );
}

#[test]
fn priority_counts_only_open_tickets() {
    let labels = Labels::for_language(Language::En);
    let rows = vec![
        obj(vec![("12", Json::Int(5)), ("3", Json::Int(4))]),
        obj(vec![("12", Json::Int(1)), ("3", Json::Int(4))]),
        obj(vec![("12", s("6")), ("3", Json::Int(4))]),
        obj(vec![("3", Json::Int(1))]),
    ];
    let result = stats_by_priority(&labels, &rows);
    assert!(result.starts_with("**Total open tickets: 2**"));
    assert!(result.contains("| High | 1 |\n| Very low | 1 |"));
}

#[test]
fn category_falls_back_to_uncategorized() {
    let labels = Labels::for_language(Language::En);
    let rows = vec![obj(vec![("7", s(" Network "))]), obj(vec![("7", s("  "))]), obj(vec![]), obj(vec![("7", s("Network"))])];
    let result = stats_by_category(&labels, &rows);
    assert_eq!(
        result,
        "**Total tickets: 4**\n\n| Label | Count |\n|---|---|\n| Network | 2 |\n| Uncategorized | 2 |"
    );
}

#[test]
fn assignees_split_on_commas() {
    let labels = Labels::for_language(Language::En);
    let rows = vec![obj(vec![("5", s("ann, bob"))]), obj(vec![("5", s("bob,,"))]), obj(vec![("5", s(""))])];
    let result = stats_by_assignee(&labels, &rows);
    assert_eq!(
        result,
        "**Total tickets: 3**\n\n| Label | Count |\n|---|---|\n| bob | 2 |\n| Unassigned | 1 |\n| ann | 1 |"
    );
}

#[test]
fn resolution_times_come_from_parsed_dates() {
    let rows = vec![
        obj(vec![("12", Json::Int(5)), ("15", s("2024-01-01 10:00:00")), ("17", s("2024-01-01 12:30:00"))]),
        obj(vec![("12", Json::Int(6)), ("15", s("2024-01-02 00:00:00")), ("17", s("2024-01-01 00:00:00"))]),
        obj(vec![("12", Json::Int(6)), ("15", s("not a date")), ("17", s("2024-01-01 00:00:00"))]),
        obj(vec![("12", Json::Int(1)), ("15", s("2024-01-01 10:00:00")), ("17", s("2024-01-01 11:00:00"))]),
    ];
    let (resolved, deltas) = resolution_times(&rows);
    assert_eq!(resolved, 3);
    assert_eq!(deltas, vec![9000]);
}

#[test]
fn overdue_tickets_are_ranked_by_hours() {
    let labels = Labels::for_language(Language::En);
    let now = 1_704_110_400; // 2024-01-01 12:00:00
    let rows = vec![
        obj(vec![("2", s("1")), ("1", s("a|b")), ("18", s("2024-01-01 11:00:00")), ("12", Json::Int(2)), ("3", Json::Int(3))]),
        obj(vec![("2", s("2")), ("1", s("b")), ("18", s("2024-01-01 02:00:00")), ("12", Json::Int(1)), ("3", Json::Int(5))]),
        obj(vec![("2", s("3")), ("1", s("c")), ("18", s("2024-01-02 00:00:00")), ("12", Json::Int(1))]),
        obj(vec![("2", s("4")), ("1", s("d")), ("18", s("2023-01-01 00:00:00")), ("12", Json::Int(6))]),
        obj(vec![("2", s("5")), ("1", s("e")), ("18", s("")), ("12", Json::Int(1))]),
    ];
    let (open, overdue) = overdue_tickets(&labels, &rows, now, 0);
    assert_eq!(open, 4);
    assert_eq!(overdue.len(), 2);
    assert_eq!(overdue[0].overdue_seconds, 3600);
    assert_eq!(overdue[1].overdue_seconds, 36000);
    assert_eq!(overdue[1].priority, "Very high");
    let entries: Vec<(OverdueTicket, i64, String)> = overdue
        .into_iter()
        .map(|t| {
            let tenths = (t.overdue_seconds / 360) as i64;
            let text = format!("{}", tenths as f64 / 10.0);
            (t, tenths, text)
        })
        .collect();
    let out = overdue_answer(open, &entries);
    assert_eq!(
        out,
        "**Total open: 4, overdue: 2**\n\n| ID | Name | Deadline | Overdue | Status | Priority |\n|---|---|---|---|---|---|\n| 2 | b | 2024-01-01 02:00:00 | 10h | New | Very high |\n| 1 | a\\|b | 2024-01-01 11:00:00 | 1h | In progress (assigned) | Medium |"
    );
}

#[test]
fn no_overdue_ticket_gives_a_short_note() {
    let out = overdue_answer(3, &Vec::new());
    assert_eq!(out, "**Total open tickets: 3**\n\nNo overdue tickets.");
}

#[test]
fn a_deadline_in_the_current_second_is_overdue_only_once_it_has_passed() {
    let labels = Labels::for_language(Language::En);
    let now = 1_704_110_400;
    let rows = vec![obj(vec![("18", s("2024-01-01 12:00:00"))])];
    assert_eq!(overdue_tickets(&labels, &rows, now, 0).1.len(), 0);
    assert_eq!(overdue_tickets(&labels, &rows, now, 5).1.len(), 1);
}

#[test]
fn a_leap_second_deadline_keeps_its_place_in_time() {
    let labels = Labels::for_language(Language::En);
    let midnight = 1_483_228_800; // 2017-01-01 00:00:00, just after the leap second
    let rows = vec![obj(vec![("2", s("7")), ("18", s("2016-12-31 23:59:60")), ("12", Json::Int(1))])];
    // Within the leap second itself the deadline has not yet passed.
    assert_eq!(overdue_tickets(&labels, &rows, midnight - 1, 999_999_999).1.len(), 0);
    assert_eq!(overdue_tickets(&labels, &rows, midnight - 1, 1_500_000_000).1.len(), 1);
    assert_eq!(overdue_tickets(&labels, &rows, midnight - 1, 1_500_000_000).1[0].overdue_seconds, 0);
    let at_midnight = overdue_tickets(&labels, &rows, midnight, 0).1;
    assert_eq!(at_midnight.len(), 1);
    assert_eq!(at_midnight[0].overdue_seconds, 0);
    assert_eq!(overdue_tickets(&labels, &rows, midnight + 10, 0).1[0].overdue_seconds, 10);
}

#[test]
fn elapsed_seconds_count_the_leap_second_only_from_inside_it() {
    let before = (1_483_228_799, 0); // 2016-12-31 23:59:59
    let leap = (1_483_228_799, 1_000_000_000); // 2016-12-31 23:59:60
    let after = (1_483_228_801, 0); // 2017-01-01 00:00:01
    assert_eq!(elapsed(after, before), 2);
    assert_eq!(elapsed(after, leap), 1);
    assert_eq!(elapsed((1_483_228_799, 1_500_000_000), before), 1);
    assert_eq!(elapsed(before, after), -2);
    assert_eq!(elapsed((10, 0), (12, 500_000_000)), -2);
    assert_eq!(elapsed((12, 0), (10, 500_000_000)), 1);
}
