use glpi_mcp::compact::compact_value;
use glpi_mcp::json::Json;

fn obj(members: Vec<(&str, Json)>) -> Json {
    Json::Object(members.into_iter().map(|(k, v)| (k.to_string(), v)).collect())
}

fn s(v: &str) -> Json {
    Json::Str(v.to_string())
}

#[test]
fn removes_links_array_from_objects() {
    let mut value = obj(vec![
        ("id", Json::Int(1)),
        ("links", Json::Array(vec![obj(vec![("rel", s("Entity")), ("href", s("..."))])])),
    ]);
    compact_value(&mut value);
    assert!(value.get("links").is_none());
    assert_eq!(value.get("id"), Some(&Json::Int(1)));
}

#[test]
fn removes_links_recursively_inside_arrays() {
    let mut value = Json::Array(vec![
        obj(vec![("id", Json::Int(1)), ("links", Json::Array(vec![]))]),
        obj(vec![("id", Json::Int(2)), ("links", Json::Array(vec![]))]),
    ]);
    compact_value(&mut value);
    match &value {
        Json::Array(items) => {
            assert!(items[0].get("links").is_none());
            assert!(items[1].get("links").is_none());
        },
        _ => panic!("not an array"),
    }
}

#[test]
fn strips_inline_style_attributes_but_keeps_tags_and_text() {
    let mut value = obj(vec![(
        "content",
        s("<p><span style=\"color: #000; font-family: monospace;\">hello</span></p>"),
    )]);
    compact_value(&mut value);
    assert_eq!(value.get("content"), Some(&s("<p><span>hello</span></p>")));
}

#[test]
fn strips_multiple_style_attributes_in_one_string() {
    let mut value = obj(vec![(
        "content",
        s("<span style=\"color: red;\">a</span><br style=\"font-size: 16px;\"><span style=\"color: blue;\">b</span>"),
    )]);
    compact_value(&mut value);
    assert_eq!(value.get("content"), Some(&s("<span>a</span><br><span>b</span>")));
}

#[test]
fn leaves_strings_without_style_attribute_untouched() {
    let mut value = obj(vec![("name", s("plain text, no html"))]);
    compact_value(&mut value);
    assert_eq!(value.get("name"), Some(&s("plain text, no html")));
}

#[test]
fn compacting_removes_links_at_every_depth() {
    let mut value = obj(vec![
        ("links", Json::Null),
        ("child", obj(vec![("links", Json::Int(1)), ("deep", Json::Array(vec![obj(vec![("links", Json::Bool(true)), ("k", Json::Int(5))])]))])),
    ]);
    compact_value(&mut value);
    let expected = obj(vec![("child", obj(vec![("deep", Json::Array(vec![obj(vec![("k", Json::Int(5))])]))]))]);
    assert_eq!(value, expected);
}

#[test]
fn unterminated_style_attribute_is_kept_from_its_start() {
    let mut value = s("<b style=\"x>t</b>");
    compact_value(&mut value);
    assert_eq!(value, s("<bstyle=\"x>t</b>"));
}
