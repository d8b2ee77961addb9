//! Human-readable labels for GLPI's numeric enum fields, in French and English.
use vstd::prelude::*;
use std::collections::HashMap;
use crate::config::Language;
use crate::json::{jget_i64, jobject, member_insert, owned, Json, JsonV};

verus! {

broadcast use {vstd::std_specs::hash::group_hash_axioms, vstd::string::group_string_axioms};

/// Human-readable labels for GLPI's numeric enum fields, mirrored fr/en.
pub struct Labels {
    pub ticket_status: HashMap<i64, &'static str>,
    pub ticket_type: HashMap<i64, &'static str>,
    pub ticket_priority: HashMap<i64, &'static str>,
    pub task_status: HashMap<i64, &'static str>,
    pub ticket_link_type: HashMap<i64, &'static str>,
    pub unknown: &'static str,
    pub unknown_f: &'static str,
    pub unassigned: &'static str,
    pub uncategorized: &'static str,
    pub http_timeout_error: &'static str,
    pub http_timeout_detail: &'static str,
    pub kb_clamp_warning: &'static str,
}

/// A label table as a map from codes to label texts.
pub open spec fn table_view(m: HashMap<i64, &'static str>) -> Map<int, Seq<char>> {
    Map::new(|k: int| i64::MIN <= k <= i64::MAX && m@.contains_key(k as i64), |k: int| m@[k as i64]@)
}

/// A label table given as code/text pairs.
pub open spec fn pairs_view(pairs: Seq<(i64, &'static str)>) -> Map<int, Seq<char>>
    decreases pairs.len(),
{
    if pairs.len() == 0 {
        Map::empty()
    } else {
        pairs_view(pairs.drop_last()).insert(pairs.last().0 as int, pairs.last().1@)
    }
}

/// The label of `value` in `table`, or `fallback` when it has none.
pub open spec fn lookup_spec(table: Map<int, Seq<char>>, value: Option<int>, fallback: Seq<char>) -> Seq<char> {
    match value {
        Some(v) => if table.contains_key(v) {
            table[v]
        } else {
            fallback
        },
        None => fallback,
    }
}

/// A label table built from code/text pairs; a later pair wins over an earlier one.
pub fn map<const N: usize>(pairs: [(i64, &'static str); N]) -> (m: HashMap<i64, &'static str>)
    ensures
        table_view(m) == pairs_view(pairs@),
{
    let mut m: HashMap<i64, &'static str> = HashMap::new();
    let mut i: usize = 0;
    while i < N
        invariant
            i <= N,
            pairs@.len() == N,
            table_view(m) == pairs_view(pairs@.take(i as int)),
        decreases N - i,
    {
        assert(pairs@.take(i + 1).drop_last() =~= pairs@.take(i as int));
        let (k, v) = pairs[i];
        m.insert(k, v);
        i = i + 1;
        assert(table_view(m) =~= pairs_view(pairs@.take(i as int)));
    }
    assert(pairs@.take(N as int) =~= pairs@);
    m
}

/// Looks `value` up in `table`, falling back to `fallback`.
pub fn lookup<'a>(table: &'a HashMap<i64, &'static str>, value: Option<i64>, fallback: &'a str) -> (r: &'a str)
    ensures
        r@ == lookup_spec(table_view(*table), match value {
            Some(v) => Some(v as int),
            None => None,
        }, fallback@),
{
    match value {
        Some(v) => match table.get(&v) {
            Some(label) => *label,
            None => fallback,
        },
        None => fallback,
    }
}

/// The mathematical form of a set of labels.
pub struct LabelsView {
    pub ticket_status: Map<int, Seq<char>>,
    pub ticket_type: Map<int, Seq<char>>,
    pub ticket_priority: Map<int, Seq<char>>,
    pub task_status: Map<int, Seq<char>>,
    pub ticket_link_type: Map<int, Seq<char>>,
    pub unknown: Seq<char>,
    pub unknown_f: Seq<char>,
    pub unassigned: Seq<char>,
    pub uncategorized: Seq<char>,
    pub http_timeout_error: Seq<char>,
    pub http_timeout_detail: Seq<char>,
    pub kb_clamp_warning: Seq<char>,
}

/// The labels as maps and texts.
pub open spec fn labels_view(l: &Labels) -> LabelsView {
    LabelsView {
        ticket_status: table_view(l.ticket_status),
        ticket_type: table_view(l.ticket_type),
        ticket_priority: table_view(l.ticket_priority),
        task_status: table_view(l.task_status),
        ticket_link_type: table_view(l.ticket_link_type),
        unknown: l.unknown@,
        unknown_f: l.unknown_f@,
        unassigned: l.unassigned@,
        uncategorized: l.uncategorized@,
        http_timeout_error: l.http_timeout_error@,
        http_timeout_detail: l.http_timeout_detail@,
        kb_clamp_warning: l.kb_clamp_warning@,
    }
}

/// The French labels.
pub open spec fn fr_labels() -> LabelsView {
    LabelsView {
        ticket_status: map![1int => "Nouveau"@, 2int => "En cours (attribué)"@, 3int => "En cours (planifié)"@, 4int => "En attente"@, 5int => "Résolu"@, 6int => "Clos"@],
        ticket_type: map![1int => "Incident"@, 2int => "Demande de service"@],
        ticket_priority: map![1int => "Très basse"@, 2int => "Basse"@, 3int => "Moyenne"@, 4int => "Haute"@, 5int => "Très haute"@, 6int => "Majeure"@],
        task_status: map![1int => "À faire"@, 2int => "Terminée"@],
        ticket_link_type: map![1int => "Lié à"@, 2int => "Duplique"@, 3int => "Enfant de"@, 4int => "Parent de"@],
        unknown: "Inconnu"@,
        unknown_f: "Inconnue"@,
        unassigned: "Non assigné"@,
        uncategorized: "Sans catégorie"@,
        http_timeout_error: "Timeout HTTP"@,
        http_timeout_detail: "Requête > 30s — voir GLPI logs"@,
        kb_clamp_warning: "range_limit ramené à 10 car range_start > 60 (évite les erreurs PHP memory_limit côté GLPI sur de gros payloads KB)."@,
    }
}

/// The English labels.
pub open spec fn en_labels() -> LabelsView {
    LabelsView {
        ticket_status: map![1int => "New"@, 2int => "In progress (assigned)"@, 3int => "In progress (planned)"@, 4int => "Pending"@, 5int => "Solved"@, 6int => "Closed"@],
        ticket_type: map![1int => "Incident"@, 2int => "Service request"@],
        ticket_priority: map![1int => "Very low"@, 2int => "Low"@, 3int => "Medium"@, 4int => "High"@, 5int => "Very high"@, 6int => "Major"@],
        task_status: map![1int => "To do"@, 2int => "Done"@],
        ticket_link_type: map![1int => "Linked to"@, 2int => "Duplicates"@, 3int => "Child of"@, 4int => "Parent of"@],
        unknown: "Unknown"@,
        unknown_f: "Unknown"@,
        unassigned: "Unassigned"@,
        uncategorized: "Uncategorized"@,
        http_timeout_error: "HTTP timeout"@,
        http_timeout_detail: "Request > 30s — see GLPI logs"@,
        kb_clamp_warning: "range_limit clamped to 10 because range_start > 60 (prevents PHP memory_limit errors on large KB payloads from GLPI)."@,
    }
}

impl Labels {
    /// The labels for `lang`.
    pub fn for_language(lang: Language) -> (l: Self)
        ensures
            labels_view(&l) == (match lang {
                Language::Fr => fr_labels(),
                Language::En => en_labels(),
            }),
    {
        match lang {
            Language::Fr => Self::fr(),
            Language::En => Self::en(),
        }
    }

    fn fr() -> (l: Self)
        ensures
            labels_view(&l) == fr_labels(),
    {
        let ticket_status = map([(1, "Nouveau"), (2, "En cours (attribué)"), (3, "En cours (planifié)"), (4, "En attente"), (5, "Résolu"), (6, "Clos")]);
        proof {
            reveal_with_fuel(pairs_view, 7);
            assert(table_view(ticket_status) =~= map![1int => "Nouveau"@, 2int => "En cours (attribué)"@, 3int => "En cours (planifié)"@, 4int => "En attente"@, 5int => "Résolu"@, 6int => "Clos"@]);
        }
        let ticket_type = map([(1, "Incident"), (2, "Demande de service")]);
        proof {
            reveal_with_fuel(pairs_view, 3);
            assert(table_view(ticket_type) =~= map![1int => "Incident"@, 2int => "Demande de service"@]);
        }
        let ticket_priority = map([(1, "Très basse"), (2, "Basse"), (3, "Moyenne"), (4, "Haute"), (5, "Très haute"), (6, "Majeure")]);
        proof {
            reveal_with_fuel(pairs_view, 7);
            assert(table_view(ticket_priority) =~= map![1int => "Très basse"@, 2int => "Basse"@, 3int => "Moyenne"@, 4int => "Haute"@, 5int => "Très haute"@, 6int => "Majeure"@]);
        }
        let task_status = map([(1, "À faire"), (2, "Terminée")]);
        proof {
            reveal_with_fuel(pairs_view, 3);
            assert(table_view(task_status) =~= map![1int => "À faire"@, 2int => "Terminée"@]);
        }
        let ticket_link_type = map([(1, "Lié à"), (2, "Duplique"), (3, "Enfant de"), (4, "Parent de")]);
        proof {
            reveal_with_fuel(pairs_view, 5);
            assert(table_view(ticket_link_type) =~= map![1int => "Lié à"@, 2int => "Duplique"@, 3int => "Enfant de"@, 4int => "Parent de"@]);
        }
        Labels {
            ticket_status,
            ticket_type,
            ticket_priority,
            task_status,
            ticket_link_type,
            unknown: "Inconnu",
            unknown_f: "Inconnue",
            unassigned: "Non assigné",
            uncategorized: "Sans catégorie",
            http_timeout_error: "Timeout HTTP",
            http_timeout_detail: "Requête > 30s — voir GLPI logs",
            kb_clamp_warning: "range_limit ramené à 10 car range_start > 60 (évite les erreurs PHP memory_limit côté GLPI sur de gros payloads KB).",
        }
    }

    fn en() -> (l: Self)
        ensures
            labels_view(&l) == en_labels(),
    {
        let ticket_status = map([(1, "New"), (2, "In progress (assigned)"), (3, "In progress (planned)"), (4, "Pending"), (5, "Solved"), (6, "Closed")]);
        proof {
            reveal_with_fuel(pairs_view, 7);
            assert(table_view(ticket_status) =~= map![1int => "New"@, 2int => "In progress (assigned)"@, 3int => "In progress (planned)"@, 4int => "Pending"@, 5int => "Solved"@, 6int => "Closed"@]);
        }
        let ticket_type = map([(1, "Incident"), (2, "Service request")]);
        proof {
            reveal_with_fuel(pairs_view, 3);
            assert(table_view(ticket_type) =~= map![1int => "Incident"@, 2int => "Service request"@]);
        }
        let ticket_priority = map([(1, "Very low"), (2, "Low"), (3, "Medium"), (4, "High"), (5, "Very high"), (6, "Major")]);
        proof {
            reveal_with_fuel(pairs_view, 7);
            assert(table_view(ticket_priority) =~= map![1int => "Very low"@, 2int => "Low"@, 3int => "Medium"@, 4int => "High"@, 5int => "Very high"@, 6int => "Major"@]);
        }
        let task_status = map([(1, "To do"), (2, "Done")]);
        proof {
            reveal_with_fuel(pairs_view, 3);
            assert(table_view(task_status) =~= map![1int => "To do"@, 2int => "Done"@]);
        }
        let ticket_link_type = map([(1, "Linked to"), (2, "Duplicates"), (3, "Child of"), (4, "Parent of")]);
        proof {
            reveal_with_fuel(pairs_view, 5);
            assert(table_view(ticket_link_type) =~= map![1int => "Linked to"@, 2int => "Duplicates"@, 3int => "Child of"@, 4int => "Parent of"@]);
        }
        Labels {
            ticket_status,
            ticket_type,
            ticket_priority,
            task_status,
            ticket_link_type,
            unknown: "Unknown",
            unknown_f: "Unknown",
            unassigned: "Unassigned",
            uncategorized: "Uncategorized",
            http_timeout_error: "HTTP timeout",
            http_timeout_detail: "Request > 30s — see GLPI logs",
            kb_clamp_warning: "range_limit clamped to 10 because range_start > 60 (prevents PHP memory_limit errors on large KB payloads from GLPI).",
        }
    }
}

/// The label of the integer found at `key` of `t`.
pub open spec fn field_label(table: Map<int, Seq<char>>, t: JsonV, key: Seq<char>, fallback: Seq<char>) -> JsonV {
    JsonV::Str(lookup_spec(table, jget_i64(t, key), fallback))
}

/// A ticket with its readable labels added: `_status_label`, `_type_label`,
/// `_priority_label`, `_urgency_label` and `_impact_label`, each read from the
/// ticket as it came in. A value that is not an object is left as it is.
pub open spec fn enrich_ticket_spec(l: LabelsView, t: JsonV) -> JsonV {
    match t {
        JsonV::Object(m) => {
            let m1 = member_insert(m, "_status_label"@, field_label(l.ticket_status, t, "status"@, l.unknown));
            let m2 = member_insert(m1, "_type_label"@, field_label(l.ticket_type, t, "type"@, l.unknown));
            let m3 = member_insert(m2, "_priority_label"@, field_label(l.ticket_priority, t, "priority"@, l.unknown_f));
            let m4 = member_insert(m3, "_urgency_label"@, field_label(l.ticket_priority, t, "urgency"@, l.unknown_f));
            JsonV::Object(member_insert(m4, "_impact_label"@, field_label(l.ticket_priority, t, "impact"@, l.unknown)))
        },
        _ => t,
    }
}

/// The option of an `i64` as an option of an integer.
pub open spec fn opt_int(v: Option<i64>) -> Option<int> {
    match v {
        Some(x) => Some(x as int),
        None => None,
    }
}

impl Labels {
    /// Adds `_status_label`/`_type_label`/`_priority_label`/`_urgency_label`/`_impact_label`
    /// fields to a ticket JSON object.
    pub fn enrich_ticket(&self, ticket: Json) -> (r: Json)
        ensures
            r@ == enrich_ticket_spec(labels_view(self), ticket@),
    {
        let mut ticket = ticket;
        let ghost t = ticket@;
        match ticket {
            Json::Object(_) => {},
            _ => return ticket,
        }
        let status = ticket.get_i64("status");
        let ticket_type = ticket.get_i64("type");
        let priority = ticket.get_i64("priority");
        let urgency = ticket.get_i64("urgency");
        let impact = ticket.get_i64("impact");
        let s1 = owned(lookup(&self.ticket_status, status, self.unknown));
        let s2 = owned(lookup(&self.ticket_type, ticket_type, self.unknown));
        let s3 = owned(lookup(&self.ticket_priority, priority, self.unknown_f));
        let s4 = owned(lookup(&self.ticket_priority, urgency, self.unknown_f));
        let s5 = owned(lookup(&self.ticket_priority, impact, self.unknown));
        proof {
            reveal_strlit("status");
            reveal_strlit("type");
            reveal_strlit("priority");
            reveal_strlit("urgency");
            reveal_strlit("impact");
        }
        ticket.insert(owned("_status_label"), Json::Str(s1));
        ticket.insert(owned("_type_label"), Json::Str(s2));
        ticket.insert(owned("_priority_label"), Json::Str(s3));
        ticket.insert(owned("_urgency_label"), Json::Str(s4));
        ticket.insert(owned("_impact_label"), Json::Str(s5));
        ticket
    }

    /// Label for a `Ticket_Ticket.link` value (1=linked, 2=duplicate, 3=child, 4=parent).
    pub fn ticket_link_label(&self, link: Option<i64>) -> (r: &str)
        ensures
            r@ == lookup_spec(labels_view(self).ticket_link_type, opt_int(link), labels_view(self).unknown),
    {
        lookup(&self.ticket_link_type, link, self.unknown)
    }
}


/// The French and English labels cover the same codes, table by table.
pub proof fn lemma_languages_cover_same_codes()
    ensures
        fr_labels().ticket_status.dom() == en_labels().ticket_status.dom(),
        fr_labels().ticket_type.dom() == en_labels().ticket_type.dom(),
        fr_labels().ticket_priority.dom() == en_labels().ticket_priority.dom(),
        fr_labels().task_status.dom() == en_labels().task_status.dom(),
        fr_labels().ticket_link_type.dom() == en_labels().ticket_link_type.dom(),
{
    assert(fr_labels().ticket_status.dom() =~= en_labels().ticket_status.dom());
    assert(fr_labels().ticket_type.dom() =~= en_labels().ticket_type.dom());
    assert(fr_labels().ticket_priority.dom() =~= en_labels().ticket_priority.dom());
    assert(fr_labels().task_status.dom() =~= en_labels().task_status.dom());
    assert(fr_labels().ticket_link_type.dom() =~= en_labels().ticket_link_type.dom());
}

} // verus!
