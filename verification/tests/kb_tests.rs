use glpi_mcp::config::Language;
use glpi_mcp::json::Json;
use glpi_mcp::labels::Labels;
use glpi_mcp::step::Step;
use glpi_mcp::tools::kb::{
    default_range_limit, get_kb_article_visibility_next, get_kb_article_visibility_start, list_kb_articles_answer,
    list_kb_articles_call, search_kb_articles_call, GetKbArticleVisibilityParams, ListKbArticlesParams,
    SearchKbArticlesParams,
};

fn obj(members: Vec<(&str, Json)>) -> Json {
    Json::Object(members.into_iter().map(|(k, v)| (k.to_string(), v)).collect())
}

fn query(c: &glpi_mcp::call::Call) -> Vec<(String, String)> {
    c.query.clone().unwrap_or_default()
}

fn param(c: &glpi_mcp::call::Call, key: &str) -> Option<String> {
    query(c).into_iter().find(|(k, _)| k == key).map(|(_, v)| v)
}

#[test]
fn clamps_range_limit_when_offset_above_60() {
    let labels = Labels::for_language(Language::En);
    let p = ListKbArticlesParams { range_start: 61, range_limit: 50 };
    let c = list_kb_articles_call(&p);
    assert_eq!(c.endpoint, "/KnowbaseItem");
    assert_eq!(param(&c, "range"), Some("61-70".to_string()));
    let reply = Json::Array(vec![obj(vec![("id", Json::Int(1))])]);
    let result = list_kb_articles_answer(&labels, &p, Ok(reply)).unwrap();
    assert_eq!(result.get("_clamped_range_limit"), Some(&Json::Int(10)));
    assert!(matches!(result.get("_warning"), Some(Json::Str(_))));
    assert_eq!(result.get("items"), Some(&Json::Array(vec![obj(vec![("id", Json::Int(1))])])));
}

#[test]
fn no_clamping_for_small_offset() {
    let labels = Labels::for_language(Language::En);
    let p = ListKbArticlesParams { range_start: 0, range_limit: 50 };
    let c = list_kb_articles_call(&p);
    assert_eq!(param(&c, "range"), Some("0-49".to_string()));
    let reply = Json::Array(vec![obj(vec![("id", Json::Int(2))])]);
    let result = list_kb_articles_answer(&labels, &p, Ok(reply.deep_clone())).unwrap();
    assert_eq!(result, reply);
}

#[test]
fn clamped_object_pages_get_the_marks_too() {
    let labels = Labels::for_language(Language::Fr);
    let p = ListKbArticlesParams { range_start: 100, range_limit: 20 };
    let result = list_kb_articles_answer(&labels, &p, Ok(obj(vec![("totalcount", Json::Int(3))]))).unwrap();
    assert_eq!(result.get("totalcount"), Some(&Json::Int(3)));
    assert_eq!(result.get("_clamped_range_limit"), Some(&Json::Int(10)));
    let small = ListKbArticlesParams { range_start: 100, range_limit: 5 };
    assert_eq!(param(&list_kb_articles_call(&small), "range"), Some("100-104".to_string()));
    assert_eq!(default_range_limit(), 50);
}

#[test]
fn kb_search_uses_the_discovered_fields() {
    let p = SearchKbArticlesParams { keywords: "vpn".to_string(), range_start: 0, range_limit: 10, search_content: true };
    let c = search_kb_articles_call(&p, "12", "13");
    assert_eq!(c.endpoint, "/search/KnowbaseItem");
    assert_eq!(param(&c, "criteria[0][field]"), Some("12".to_string()));
    assert_eq!(param(&c, "criteria[1][field]"), Some("13".to_string()));
    assert_eq!(param(&c, "criteria[1][link]"), Some("OR".to_string()));
    let title_only = SearchKbArticlesParams { search_content: false, ..p };
    let c = search_kb_articles_call(&title_only, "6", "7");
    assert_eq!(query(&c).len(), 4);
}

#[test]
fn visibility_reads_four_lists_then_gathers_them() {
    let mut step = get_kb_article_visibility_start(&GetKbArticleVisibilityParams { article_id: 5 });
    let mut endpoints = Vec::new();
    let mut n = 0;
    let result = loop {
        match step {
            Step::Call(s, c) => {
                endpoints.push(c.endpoint.clone());
                n += 1;
                step = get_kb_article_visibility_next(s, Ok(Json::Int(n)));
            },
            Step::Done(r) => break r,
        }
    };
    assert_eq!(
        endpoints,
        vec![
            "/KnowbaseItem/5/KnowbaseItem_Profile",
            "/KnowbaseItem/5/KnowbaseItem_Group",
            "/KnowbaseItem/5/KnowbaseItem_User",
            "/KnowbaseItem/5/Entity_KnowbaseItem",
        ]
    );
    let v = result.unwrap();
    assert_eq!(v.get("profiles"), Some(&Json::Int(1)));
    assert_eq!(v.get("entities"), Some(&Json::Int(4)));
}

#[test]
fn kb_page_limit_clamps_only_past_sixty() {
    assert_eq!(glpi_mcp::tools::kb::kb_page_limit(61, 50), 10);
    assert_eq!(glpi_mcp::tools::kb::kb_page_limit(60, 50), 50);
    assert_eq!(glpi_mcp::tools::kb::kb_page_limit(100, 5), 5);
}
