use glpi_mcp::config::Language;
use glpi_mcp::json::Json;
use glpi_mcp::labels::Labels;

fn obj(members: Vec<(&str, Json)>) -> Json {
    Json::Object(members.into_iter().map(|(k, v)| (k.to_string(), v)).collect())
}

fn text(v: Option<&Json>) -> Option<String> {
    match v {
        Some(Json::Str(s)) => Some(s.clone()),
        _ => None,
    }
}

#[test]
fn fr_and_en_expose_the_same_status_keys() {
    let fr = Labels::for_language(Language::Fr);
    let en = Labels::for_language(Language::En);
    let mut fr_keys: Vec<_> = fr.ticket_status.keys().collect();
    let mut en_keys: Vec<_> = en.ticket_status.keys().collect();
    fr_keys.sort();
    en_keys.sort();
    assert_eq!(fr_keys, en_keys);
}

#[test]
fn fr_and_en_cover_the_same_codes_in_every_table() {
    let fr = Labels::for_language(Language::Fr);
    let en = Labels::for_language(Language::En);
    let pairs = [
        (&fr.ticket_type, &en.ticket_type),
        (&fr.ticket_priority, &en.ticket_priority),
        (&fr.task_status, &en.task_status),
        (&fr.ticket_link_type, &en.ticket_link_type),
    ];
    for (a, b) in pairs {
        let mut ka: Vec<_> = a.keys().collect();
        let mut kb: Vec<_> = b.keys().collect();
        ka.sort();
        kb.sort();
        assert_eq!(ka, kb);
    }
}

#[test]
fn enrich_ticket_adds_readable_labels() {
    let labels = Labels::for_language(Language::En);
    let ticket = obj(vec![
        ("id", Json::Int(1)),
        ("status", Json::Int(2)),
        ("type", Json::Int(1)),
        ("priority", Json::Int(4)),
        ("urgency", Json::Int(3)),
        ("impact", Json::Int(1)),
    ]);
    let enriched = labels.enrich_ticket(ticket);
    assert_eq!(text(enriched.get("_status_label")), Some("In progress (assigned)".to_string()));
    assert_eq!(text(enriched.get("_type_label")), Some("Incident".to_string()));
    assert_eq!(text(enriched.get("_priority_label")), Some("High".to_string()));
}

#[test]
fn enrich_ticket_falls_back_to_unknown_for_missing_fields() {
    let labels = Labels::for_language(Language::En);
    let enriched = labels.enrich_ticket(obj(vec![("id", Json::Int(1))]));
    assert_eq!(text(enriched.get("_status_label")), Some("Unknown".to_string()));
}

#[test]
fn enrich_ticket_leaves_non_objects_alone() {
    let labels = Labels::for_language(Language::Fr);
    assert_eq!(labels.enrich_ticket(Json::Int(3)), Json::Int(3));
}

#[test]
fn french_labels_are_french() {
    let labels = Labels::for_language(Language::Fr);
    let enriched = labels.enrich_ticket(obj(vec![("status", Json::Int(6)), ("priority", Json::Int(9))]));
    assert_eq!(text(enriched.get("_status_label")), Some("Clos".to_string()));
    assert_eq!(text(enriched.get("_priority_label")), Some("Inconnue".to_string()));
}

#[test]
fn ticket_link_label_names_link_kinds() {
    let en = Labels::for_language(Language::En);
    assert_eq!(en.ticket_link_label(Some(2)), "Duplicates");
    assert_eq!(en.ticket_link_label(Some(7)), "Unknown");
    assert_eq!(en.ticket_link_label(None), "Unknown");
}
