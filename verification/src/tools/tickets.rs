//! Tickets: listing, searching, reading, writing, linking and merging them.
use vstd::prelude::*;
use crate::call::{
    delete, delete_v, get, get_q_v, get_query, get_v, i64_string, input_of, jint, jtext, json_answer,
    json_out_view, pairs_view, path_id, path_id_suffix, post, post_v, push_member, push_param, put, put_v,
    single, text_out_view, Call, CallV,
};
use crate::error::GlpiError;
use crate::json::{copy_string, jget, jget_i64, member_insert, owned, view_items, view_members, Json, JsonV};
use crate::labels::{enrich_ticket_spec, labels_view, lookup_spec, opt_int, Labels};
use crate::markdown::{array_items, str_field, str_field_spec};
use crate::step::{reply_view, Step, StepV};
use crate::text::{extend_str, int_text, push_int, string_of};
use crate::tools::common::{get_or, get_or_exec};

verus! {

broadcast use vstd::string::group_string_axioms;

/// The page size used when none is asked for.
pub fn default_range_limit() -> (r: i64)
    ensures
        r == 50,
{
    50
}

/// Tickets are incidents unless asked otherwise.
pub fn default_ticket_type() -> (r: i64)
    ensures
        r == 1,
{
    1
}

/// Tickets get medium priority unless asked otherwise.
pub fn default_priority() -> (r: i64)
    ensures
        r == 3,
{
    3
}

/// Links are plain links unless asked otherwise.
pub fn default_link_type() -> (r: i64)
    ensures
        r == 1,
{
    1
}

/// Merges copy followups and close the sources unless asked otherwise.
pub fn default_true() -> (r: bool)
    ensures
        r,
{
    true
}

/// The `range` parameter `start-end` for `limit` items from `start`.
pub open spec fn range_text(start: int, limit: int) -> Seq<char> {
    int_text(start) + "-"@ + int_text(start + limit - 1)
}

/// The page bounds that can be written without overflow.
pub open spec fn range_fits(start: int, limit: int) -> bool {
    i64::MIN <= start + limit <= i64::MAX && i64::MIN <= start + limit - 1 <= i64::MAX
}

/// The `range` parameter for `limit` items from `start`.
pub fn range_string(start: i64, limit: i64) -> (r: String)
    requires
        range_fits(start as int, limit as int),
    ensures
        r@ == range_text(start as int, limit as int),
{
    let end = start + limit - 1;
    let mut out: Vec<char> = Vec::new();
    push_int(&mut out, start as i128);
    extend_str(&mut out, "-");
    push_int(&mut out, end as i128);
    string_of(out.as_slice())
}

pub struct ListTicketsParams {
    /// 1=New 2=In progress (assigned) 3=In progress (planned) 4=Pending 5=Solved 6=Closed
    pub status: Option<i64>,
    /// 1=Incident 2=Service request
    pub ticket_type: Option<i64>,
    pub range_start: i64,
    pub range_limit: i64,
}

/// The listing of tickets, filtered by status and type when given.
pub open spec fn list_tickets_v(p: ListTicketsParams) -> CallV {
    let q0 = seq![("range"@, range_text(p.range_start as int, p.range_limit as int))];
    let q1 = match p.status {
        Some(s) => q0.push(("searchText[status]"@, int_text(s as int))),
        None => q0,
    };
    let q2 = match p.ticket_type {
        Some(t) => q1.push(("searchText[type]"@, int_text(t as int))),
        None => q1,
    };
    get_q_v("/Ticket"@, q2)
}

/// Lists tickets.
pub fn list_tickets_call(p: &ListTicketsParams) -> (c: Call)
    requires
        range_fits(p.range_start as int, p.range_limit as int),
    ensures
        crate::call::call_view(c) == list_tickets_v(*p),
{
    let mut q: Vec<(String, String)> = Vec::new();
    push_param(&mut q, "range", range_string(p.range_start, p.range_limit));
    match p.status {
        Some(s) => push_param(&mut q, "searchText[status]", i64_string(s)),
        None => {},
    }
    match p.ticket_type {
        Some(t) => push_param(&mut q, "searchText[type]", i64_string(t)),
        None => {},
    }
    let ghost q0 = seq![("range"@, range_text(p.range_start as int, p.range_limit as int))];
    let ghost q1 = match p.status {
        Some(s) => q0.push(("searchText[status]"@, int_text(s as int))),
        None => q0,
    };
    let ghost q2 = match p.ticket_type {
        Some(t) => q1.push(("searchText[type]"@, int_text(t as int))),
        None => q1,
    };
    assert(pairs_view(q@) =~= q2);
    get_query(owned("/Ticket"), q)
}

/// Every ticket of a list enriched with its labels; any other value as it is.
pub open spec fn enrich_all(l: crate::labels::LabelsView, v: JsonV) -> JsonV {
    match v {
        JsonV::Array(items) => JsonV::Array(items.map_values(|t: JsonV| enrich_ticket_spec(l, t))),
        _ => v,
    }
}

/// The map of a JSON answer over its success.
pub open spec fn map_json(r: Result<JsonV, Seq<char>>, f: spec_fn(JsonV) -> JsonV) -> Result<JsonV, Seq<char>> {
    match r {
        Ok(v) => Ok(f(v)),
        Err(e) => Err(e),
    }
}

/// The tickets, each with readable labels.
pub fn list_tickets_answer(labels: &Labels, r: Result<Json, GlpiError>) -> (out: Result<Json, String>)
    ensures
        json_out_view(out) == map_json(reply_view(r), |v: JsonV| enrich_all(labels_view(labels), v)),
{
    let v = match r {
        Ok(v) => v,
        Err(e) => return Err(e.message()),
    };
    match v {
        Json::Array(items) => {
            let mut out: Vec<Json> = Vec::new();
            let mut i: usize = 0;
            while i < items.len()
                invariant
                    i <= items.len(),
                    view_items(out@) == view_items(items@).take(i as int).map_values(|t: JsonV| enrich_ticket_spec(labels_view(labels), t)),
                decreases items.len() - i,
            {
                let e = labels.enrich_ticket(items[i].deep_clone());
                proof {
                    crate::json::lemma_view_items_push(out@, e);
                }
                out.push(e);
                i = i + 1;
                assert(view_items(out@) =~= view_items(items@).take(i as int).map_values(|t: JsonV| enrich_ticket_spec(labels_view(labels), t)));
            }
            assert(view_items(items@).take(items.len() as int) =~= view_items(items@));
            Ok(Json::Array(out))
        },
        other => Ok(other),
    }
}

pub struct GetTicketParams {
    pub ticket_id: i64,
}

/// Reads one ticket.
pub fn get_ticket_call(p: &GetTicketParams) -> (c: Call)
    ensures
        crate::call::call_view(c) == get_v("/Ticket/"@ + int_text(p.ticket_id as int)),
{
    get(path_id("/Ticket/", p.ticket_id))
}

/// The ticket with readable labels.
pub fn get_ticket_answer(labels: &Labels, r: Result<Json, GlpiError>) -> (out: Result<Json, String>)
    ensures
        json_out_view(out) == map_json(reply_view(r), |v: JsonV| enrich_ticket_spec(labels_view(labels), v)),
{
    match r {
        Ok(v) => Ok(labels.enrich_ticket(v)),
        Err(e) => Err(e.message()),
    }
}

pub struct SearchTicketsParams {
    pub keywords: Option<String>,
    /// 1=New 2=In progress (assigned) 3=In progress (planned) 4=Pending 5=Solved 6=Closed
    pub status: Option<i64>,
    /// 1=Incident 2=Service request
    pub ticket_type: Option<i64>,
    pub category_id: Option<i64>,
    pub assigned_user_id: Option<i64>,
    pub range_start: i64,
    pub range_limit: i64,
}

/// The three parameters of search criterion number `idx`.
pub open spec fn criterion_params(idx: int, field: Seq<char>, searchtype: Seq<char>, value: Seq<char>) -> Seq<(Seq<char>, Seq<char>)> {
    seq![
        ("criteria["@ + int_text(idx) + "][field]"@, field),
        ("criteria["@ + int_text(idx) + "][searchtype]"@, searchtype),
        ("criteria["@ + int_text(idx) + "][value]"@, value),
    ]
}

/// The criteria of the given filters, numbered from 0 in order.
pub open spec fn criteria_params(filters: Seq<(Seq<char>, Seq<char>, Seq<char>)>) -> Seq<(Seq<char>, Seq<char>)>
    decreases filters.len(),
{
    if filters.len() == 0 {
        Seq::empty()
    } else {
        criteria_params(filters.drop_last()) + criterion_params(
            filters.len() - 1,
            filters.last().0,
            filters.last().1,
            filters.last().2,
        )
    }
}

/// The filter list with `f` added when `present`.
pub open spec fn add_filter(fs: Seq<(Seq<char>, Seq<char>, Seq<char>)>, present: bool, f: (Seq<char>, Seq<char>, Seq<char>)) -> Seq<(Seq<char>, Seq<char>, Seq<char>)> {
    if present { fs.push(f) } else { fs }
}

/// The filters of a ticket search, in order: keywords in the title, status, type,
/// category, assigned technician.
pub open spec fn ticket_filters(p: SearchTicketsParams) -> Seq<(Seq<char>, Seq<char>, Seq<char>)> {
    let f0 = Seq::empty();
    let f1 = add_filter(f0, p.keywords is Some, ("1"@, "contains"@, match p.keywords { Some(k) => k@, None => Seq::empty() }));
    let f2 = add_filter(f1, p.status is Some, ("12"@, "equals"@, int_text(p.status.unwrap_or(0) as int)));
    let f3 = add_filter(f2, p.ticket_type is Some, ("14"@, "equals"@, int_text(p.ticket_type.unwrap_or(0) as int)));
    let f4 = add_filter(f3, p.category_id is Some, ("7"@, "equals"@, int_text(p.category_id.unwrap_or(0) as int)));
    add_filter(f4, p.assigned_user_id is Some, ("5"@, "equals"@, int_text(p.assigned_user_id.unwrap_or(0) as int)))
}

/// The ticket search.
pub open spec fn search_tickets_v(p: SearchTicketsParams) -> CallV {
    get_q_v(
        "/search/Ticket"@,
        seq![("range"@, range_text(p.range_start as int, p.range_limit as int))] + criteria_params(ticket_filters(p)),
    )
}

/// The criteria of `filters` hold three parameters per filter, and the first three are
/// those of the first filter, as criterion 0.
proof fn lemma_criteria_params_first(filters: Seq<(Seq<char>, Seq<char>, Seq<char>)>)
    ensures
        criteria_params(filters).len() == 3 * filters.len(),
        filters.len() > 0 ==> criteria_params(filters).subrange(0, 3)
            == criterion_params(0, filters[0].0, filters[0].1, filters[0].2),
    decreases filters.len(),
{
    if filters.len() > 0 {
        let g = filters.drop_last();
        lemma_criteria_params_first(g);
        let c = criteria_params(filters);
        if g.len() == 0 {
            assert(c =~= criterion_params(0, filters[0].0, filters[0].1, filters[0].2));
            assert(c.subrange(0, 3) =~= c);
        } else {
            assert(g[0] == filters[0]);
            assert(c.subrange(0, 3) =~= criteria_params(g).subrange(0, 3));
        }
    }
}

/// A ticket search with keywords asks GLPI, as its first criterion, for the tickets whose
/// title (field 1) contains the keywords: a `contains` match, not an exact one. Without
/// keywords no criterion is on the title, and every criterion but the title's asks for an
/// exact match.
pub proof fn lemma_keywords_search_title(p: SearchTicketsParams)
    ensures
        ({
            let fs = ticket_filters(p);
            &&& (p.keywords matches Some(k) ==> {
                &&& fs.len() >= 1
                &&& fs[0] == ("1"@, "contains"@, k@)
                &&& search_tickets_v(p).query matches Some(q)
                    && q.subrange(1, 4) == criterion_params(0, "1"@, "contains"@, k@)
            })
            &&& (p.keywords is None ==> forall|i: int| 0 <= i < fs.len() ==> (#[trigger] fs[i]).0 != "1"@)
            &&& forall|i: int| 0 <= i < fs.len() && (#[trigger] fs[i]).0 != "1"@ ==> fs[i].1 == "equals"@
        }),
{
    reveal_strlit("1");
    reveal_strlit("12");
    reveal_strlit("14");
    reveal_strlit("7");
    reveal_strlit("5");
    let fs = ticket_filters(p);
    assert("12"@ != "1"@ && "14"@ != "1"@) by {
        assert("12"@.len() != "1"@.len());
    }
    assert("7"@ != "1"@ && "5"@ != "1"@) by {
        assert("7"@[0] != "1"@[0]);
        assert("5"@[0] != "1"@[0]);
    }
    lemma_criteria_params_first(fs);
    if let Some(k) = p.keywords {
        let q = seq![("range"@, range_text(p.range_start as int, p.range_limit as int))] + criteria_params(fs);
        assert(q.subrange(1, 4) =~= criteria_params(fs).subrange(0, 3));
    }
}

/// A ticket search has one criterion per filter given, and none other: the status, type,
/// category and assigned technician each ask for an exact match of their field (12, 14, 7
/// and 5) on the value given.
pub proof fn lemma_search_filters_given(p: SearchTicketsParams)
    ensures
        ({
            let fs = ticket_filters(p);
            &&& fs.len() == (if p.keywords is Some { 1int } else { 0 }) + (if p.status is Some { 1int } else { 0 })
                + (if p.ticket_type is Some { 1int } else { 0 }) + (if p.category_id is Some { 1int } else { 0 })
                + (if p.assigned_user_id is Some { 1int } else { 0 })
            &&& (p.status matches Some(v) ==> fs.contains(("12"@, "equals"@, int_text(v as int))))
            &&& (p.ticket_type matches Some(v) ==> fs.contains(("14"@, "equals"@, int_text(v as int))))
            &&& (p.category_id matches Some(v) ==> fs.contains(("7"@, "equals"@, int_text(v as int))))
            &&& (p.assigned_user_id matches Some(v) ==> fs.contains(("5"@, "equals"@, int_text(v as int))))
        }),
{
    let f0 = Seq::<(Seq<char>, Seq<char>, Seq<char>)>::empty();
    let f1 = add_filter(f0, p.keywords is Some, ("1"@, "contains"@, match p.keywords { Some(k) => k@, None => Seq::empty() }));
    let f2 = add_filter(f1, p.status is Some, ("12"@, "equals"@, int_text(p.status.unwrap_or(0) as int)));
    let f3 = add_filter(f2, p.ticket_type is Some, ("14"@, "equals"@, int_text(p.ticket_type.unwrap_or(0) as int)));
    let f4 = add_filter(f3, p.category_id is Some, ("7"@, "equals"@, int_text(p.category_id.unwrap_or(0) as int)));
    let f5 = add_filter(f4, p.assigned_user_id is Some, ("5"@, "equals"@, int_text(p.assigned_user_id.unwrap_or(0) as int)));
    assert(f5 == ticket_filters(p));
    if p.status is Some {
        assert(f2[f2.len() - 1] == ("12"@, "equals"@, int_text(p.status.unwrap_or(0) as int)));
        assert(f3[f2.len() - 1] == f2[f2.len() - 1]);
        assert(f4[f2.len() - 1] == f2[f2.len() - 1]);
        assert(f5[f2.len() - 1] == f2[f2.len() - 1]);
    }
    if p.ticket_type is Some {
        assert(f3[f3.len() - 1] == ("14"@, "equals"@, int_text(p.ticket_type.unwrap_or(0) as int)));
        assert(f4[f3.len() - 1] == f3[f3.len() - 1]);
        assert(f5[f3.len() - 1] == f3[f3.len() - 1]);
    }
    if p.category_id is Some {
        assert(f4[f4.len() - 1] == ("7"@, "equals"@, int_text(p.category_id.unwrap_or(0) as int)));
        assert(f5[f4.len() - 1] == f4[f4.len() - 1]);
    }
    if p.assigned_user_id is Some {
        assert(f5[f5.len() - 1] == ("5"@, "equals"@, int_text(p.assigned_user_id.unwrap_or(0) as int)));
    }
}

/// The views of filter triples.
pub open spec fn triples_view(v: Seq<(String, String, String)>) -> Seq<(Seq<char>, Seq<char>, Seq<char>)> {
    v.map_values(|t: (String, String, String)| (t.0@, t.1@, t.2@))
}

fn push_filter(fs: &mut Vec<(String, String, String)>, field: &str, searchtype: &str, value: String)
    ensures
        triples_view(final(fs)@) == triples_view(old(fs)@).push((field@, searchtype@, value@)),
{
    let ghost vv = value@;
    fs.push((owned(field), owned(searchtype), value));
    assert(triples_view(fs@) =~= triples_view(old(fs)@).push((field@, searchtype@, vv)));
}

fn ticket_filters_exec(p: &SearchTicketsParams) -> (r: Vec<(String, String, String)>)
    ensures
        triples_view(r@) == ticket_filters(*p),
{
    let mut fs: Vec<(String, String, String)> = Vec::new();
    assert(triples_view(fs@) =~= Seq::<(Seq<char>, Seq<char>, Seq<char>)>::empty());
    match &p.keywords {
        Some(k) => push_filter(&mut fs, "1", "contains", copy_string(k)),
        None => {},
    }
    match p.status {
        Some(s) => push_filter(&mut fs, "12", "equals", i64_string(s)),
        None => {},
    }
    match p.ticket_type {
        Some(t) => push_filter(&mut fs, "14", "equals", i64_string(t)),
        None => {},
    }
    match p.category_id {
        Some(t) => push_filter(&mut fs, "7", "equals", i64_string(t)),
        None => {},
    }
    match p.assigned_user_id {
        Some(t) => push_filter(&mut fs, "5", "equals", i64_string(t)),
        None => {},
    }
    fs
}

fn criterion_key(idx: usize, tail: &str) -> (r: String)
    ensures
        r@ == "criteria["@ + int_text(idx as int) + tail@,
{
    let mut k: Vec<char> = Vec::new();
    extend_str(&mut k, "criteria[");
    push_int(&mut k, idx as i128);
    extend_str(&mut k, tail);
    string_of(k.as_slice())
}

fn push_criteria(q: &mut Vec<(String, String)>, fs: &Vec<(String, String, String)>)
    ensures
        pairs_view(final(q)@) == pairs_view(old(q)@) + criteria_params(triples_view(fs@)),
{
    let mut i: usize = 0;
    assert(criteria_params(triples_view(fs@).take(0)) =~= Seq::<(Seq<char>, Seq<char>)>::empty());
    assert(pairs_view(q@) =~= pairs_view(old(q)@) + criteria_params(triples_view(fs@).take(0)));
    while i < fs.len()
        invariant
            i <= fs.len(),
            pairs_view(q@) == pairs_view(old(q)@) + criteria_params(triples_view(fs@).take(i as int)),
        decreases fs.len() - i,
    {
        let ghost t = triples_view(fs@);
        assert(t.take(i + 1).drop_last() =~= t.take(i as int));
        let ghost before = pairs_view(q@);
        let k1 = criterion_key(i, "][field]");
        let k2 = criterion_key(i, "][searchtype]");
        let k3 = criterion_key(i, "][value]");
        q.push((k1, copy_string(&fs[i].0)));
        q.push((k2, copy_string(&fs[i].1)));
        q.push((k3, copy_string(&fs[i].2)));
        assert(pairs_view(q@) =~= before + criterion_params(i as int, t[i as int].0, t[i as int].1, t[i as int].2));
        i = i + 1;
    }
    assert(triples_view(fs@).take(fs.len() as int) =~= triples_view(fs@));
}

/// Searches tickets; every filter is optional and they combine.
pub fn search_tickets_call(p: &SearchTicketsParams) -> (c: Call)
    requires
        range_fits(p.range_start as int, p.range_limit as int),
    ensures
        crate::call::call_view(c) == search_tickets_v(*p),
{
    let mut q: Vec<(String, String)> = Vec::new();
    push_param(&mut q, "range", range_string(p.range_start, p.range_limit));
    assert(pairs_view(q@) =~= seq![("range"@, range_text(p.range_start as int, p.range_limit as int))]);
    let fs = ticket_filters_exec(p);
    push_criteria(&mut q, &fs);
    assert(pairs_view(q@) =~= seq![("range"@, range_text(p.range_start as int, p.range_limit as int))] + criteria_params(ticket_filters(*p)));
    get_query(owned("/search/Ticket"), q)
}

/// The search result, as GLPI gives it.
pub fn search_tickets_answer(r: Result<Json, GlpiError>) -> (out: Result<Json, String>)
    ensures
        json_out_view(out) == json_answer(r),
{
    crate::call::answer_json(r)
}

/// `m` with `key: val` added at the end when `present`.
pub open spec fn add_member(m: Seq<(Seq<char>, JsonV)>, present: bool, key: Seq<char>, val: JsonV) -> Seq<(Seq<char>, JsonV)> {
    if present { m.push((key, val)) } else { m }
}

pub struct CreateTicketParams {
    pub name: String,
    pub content: String,
    /// 1=Incident 2=Service request
    pub ticket_type: i64,
    pub category_id: Option<i64>,
    /// 1 (very low) to 6 (major)
    pub priority: i64,
    pub assigned_user_id: Option<i64>,
    pub assigned_group_id: Option<i64>,
}

/// The new ticket's fields.
pub open spec fn create_ticket_input(p: CreateTicketParams) -> JsonV {
    let m0 = seq![
        ("name"@, JsonV::Str(p.name@)),
        ("content"@, JsonV::Str(p.content@)),
        ("type"@, JsonV::Int(p.ticket_type as int)),
        ("priority"@, JsonV::Int(p.priority as int)),
    ];
    let m1 = add_member(m0, p.category_id is Some, "itilcategories_id"@, JsonV::Int(p.category_id.unwrap_or(0) as int));
    let m2 = add_member(m1, p.assigned_user_id is Some, "_users_id_assign"@, JsonV::Int(p.assigned_user_id.unwrap_or(0) as int));
    JsonV::Object(add_member(m2, p.assigned_group_id is Some, "_groups_id_assign"@, JsonV::Int(p.assigned_group_id.unwrap_or(0) as int)))
}

/// Creates a ticket.
pub fn create_ticket_call(p: &CreateTicketParams) -> (c: Call)
    ensures
        crate::call::call_view(c) == post_v("/Ticket"@, single("input"@, create_ticket_input(*p))),
{
    let mut m: Vec<(String, Json)> = Vec::new();
    push_member(&mut m, "name", Json::Str(copy_string(&p.name)));
    push_member(&mut m, "content", Json::Str(copy_string(&p.content)));
    push_member(&mut m, "type", jint(p.ticket_type));
    push_member(&mut m, "priority", jint(p.priority));
    assert(view_members(m@) =~= seq![
        ("name"@, JsonV::Str(p.name@)),
        ("content"@, JsonV::Str(p.content@)),
        ("type"@, JsonV::Int(p.ticket_type as int)),
        ("priority"@, JsonV::Int(p.priority as int)),
    ]);
    match p.category_id {
        Some(x) => push_member(&mut m, "itilcategories_id", jint(x)),
        None => {},
    }
    match p.assigned_user_id {
        Some(x) => push_member(&mut m, "_users_id_assign", jint(x)),
        None => {},
    }
    match p.assigned_group_id {
        Some(x) => push_member(&mut m, "_groups_id_assign", jint(x)),
        None => {},
    }
    post(owned("/Ticket"), input_of(Json::Object(m)))
}

/// GLPI's reply to a creation, as it is.
pub fn create_ticket_answer(r: Result<Json, GlpiError>) -> (out: Result<Json, String>)
    ensures
        json_out_view(out) == json_answer(r),
{
    crate::call::answer_json(r)
}

pub struct UpdateTicketParams {
    pub ticket_id: i64,
    /// Fields to change, e.g. {"status": 5, "priority": 4}
    pub update_fields: Json,
}

/// Writes the given fields of a ticket.
pub fn update_ticket_call(p: &UpdateTicketParams) -> (c: Call)
    ensures
        crate::call::call_view(c) == put_v("/Ticket/"@ + int_text(p.ticket_id as int), single("input"@, p.update_fields@)),
{
    put(path_id("/Ticket/", p.ticket_id), input_of(p.update_fields.deep_clone()))
}

pub struct DeleteTicketParams {
    pub ticket_id: i64,
}

/// Deletes a ticket.
pub fn delete_ticket_call(p: &DeleteTicketParams) -> (c: Call)
    ensures
        crate::call::call_view(c) == delete_v("/Ticket/"@ + int_text(p.ticket_id as int)),
{
    delete(path_id("/Ticket/", p.ticket_id))
}

pub struct LinkTicketsParams {
    pub ticket_id_1: i64,
    pub ticket_id_2: i64,
    /// 1=Linked to 2=Duplicates 3=Child of 4=Parent of
    pub link_type: i64,
}

/// The body of a link between two tickets.
pub open spec fn link_body(t1: int, t2: int, link: int) -> JsonV {
    single("input"@, JsonV::Object(seq![
        ("tickets_id_1"@, JsonV::Int(t1)),
        ("tickets_id_2"@, JsonV::Int(t2)),
        ("link"@, JsonV::Int(link)),
    ]))
}

fn link_call(t1: i64, t2: i64, link: i64) -> (c: Call)
    ensures
        crate::call::call_view(c) == post_v("/Ticket_Ticket"@, link_body(t1 as int, t2 as int, link as int)),
{
    let mut m: Vec<(String, Json)> = Vec::new();
    push_member(&mut m, "tickets_id_1", jint(t1));
    push_member(&mut m, "tickets_id_2", jint(t2));
    push_member(&mut m, "link", jint(link));
    assert(view_members(m@) =~= seq![
        ("tickets_id_1"@, JsonV::Int(t1 as int)),
        ("tickets_id_2"@, JsonV::Int(t2 as int)),
        ("link"@, JsonV::Int(link as int)),
    ]);
    post(owned("/Ticket_Ticket"), input_of(Json::Object(m)))
}

/// Links two tickets.
pub fn link_tickets_call(p: &LinkTicketsParams) -> (c: Call)
    ensures
        crate::call::call_view(c) == post_v("/Ticket_Ticket"@, link_body(p.ticket_id_1 as int, p.ticket_id_2 as int, p.link_type as int)),
{
    link_call(p.ticket_id_1, p.ticket_id_2, p.link_type)
}

pub struct ListTicketLinksParams {
    pub ticket_id: i64,
}

/// Reads the links of a ticket.
pub fn list_ticket_links_call(p: &ListTicketLinksParams) -> (c: Call)
    ensures
        crate::call::call_view(c) == get_v("/Ticket/"@ + int_text(p.ticket_id as int) + "/Ticket_Ticket"@),
{
    get(path_id_suffix("/Ticket/", p.ticket_id, "/Ticket_Ticket"))
}

/// A link with its readable `_link_label` added (when it is an object).
pub open spec fn label_link(l: crate::labels::LabelsView, link: JsonV) -> JsonV {
    match link {
        JsonV::Object(m) => JsonV::Object(member_insert(
            m,
            "_link_label"@,
            JsonV::Str(lookup_spec(l.ticket_link_type, jget_i64(link, "link"@), l.unknown)),
        )),
        _ => link,
    }
}

/// Every link of a list labelled; any other value as it is.
pub open spec fn label_links(l: crate::labels::LabelsView, v: JsonV) -> JsonV {
    match v {
        JsonV::Array(items) => JsonV::Array(items.map_values(|t: JsonV| label_link(l, t))),
        _ => v,
    }
}

fn label_link_exec(labels: &Labels, link: Json) -> (r: Json)
    ensures
        r@ == label_link(labels_view(labels), link@),
{
    let mut link = link;
    match link {
        Json::Object(_) => {},
        _ => return link,
    }
    let t = link.get_i64("link");
    let label = owned(labels.ticket_link_label(t));
    link.insert(owned("_link_label"), Json::Str(label));
    link
}

/// The links, each with a readable label.
pub fn list_ticket_links_answer(labels: &Labels, r: Result<Json, GlpiError>) -> (out: Result<Json, String>)
    ensures
        json_out_view(out) == map_json(reply_view(r), |v: JsonV| label_links(labels_view(labels), v)),
{
    let v = match r {
        Ok(v) => v,
        Err(e) => return Err(e.message()),
    };
    match v {
        Json::Array(items) => {
            let mut out: Vec<Json> = Vec::new();
            let mut i: usize = 0;
            while i < items.len()
                invariant
                    i <= items.len(),
                    view_items(out@) == view_items(items@).take(i as int).map_values(|t: JsonV| label_link(labels_view(labels), t)),
                decreases items.len() - i,
            {
                let e = label_link_exec(labels, items[i].deep_clone());
                proof {
                    crate::json::lemma_view_items_push(out@, e);
                }
                out.push(e);
                i = i + 1;
                assert(view_items(out@) =~= view_items(items@).take(i as int).map_values(|t: JsonV| label_link(labels_view(labels), t)));
            }
            assert(view_items(items@).take(items.len() as int) =~= view_items(items@));
            Ok(Json::Array(out))
        },
        other => Ok(other),
    }
}

pub struct MergeTicketsParams {
    pub target_ticket_id: i64,
    pub source_ticket_ids: Vec<i64>,
    pub add_followups: bool,
    pub close_source: bool,
}

/// Where the merge of the current source ticket stands.
#[derive(Clone, Copy, PartialEq, Eq, Structural)]
pub enum MergePhase {
    /// The source is being linked to the target as a duplicate.
    Link,
    /// The source's followups are being read.
    FollowupsList,
    /// The followup at `fnext` is being copied to the target.
    CopyFollowup,
    /// The note saying where the source went is being posted.
    CloseNote,
    /// The source is being closed.
    CloseStatus,
}

pub struct MergeState {
    pub target: i64,
    pub sources: Vec<i64>,
    pub add_followups: bool,
    pub close_source: bool,
    pub idx: usize,
    pub phase: MergePhase,
    pub link: Json,
    pub followups: Vec<Json>,
    pub fnext: usize,
    pub copied: usize,
    pub merged: Vec<Json>,
    pub errors: Vec<Json>,
}

pub struct MergeStateV {
    pub target: int,
    pub sources: Seq<i64>,
    pub add_followups: bool,
    pub close_source: bool,
    pub idx: int,
    pub phase: MergePhase,
    pub link: JsonV,
    pub followups: Seq<JsonV>,
    pub fnext: int,
    pub copied: int,
    pub merged: Seq<JsonV>,
    pub errors: Seq<JsonV>,
}

pub open spec fn merge_view(s: MergeState) -> MergeStateV {
    MergeStateV {
        target: s.target as int,
        sources: s.sources@,
        add_followups: s.add_followups,
        close_source: s.close_source,
        idx: s.idx as int,
        phase: s.phase,
        link: s.link@,
        followups: view_items(s.followups@),
        fnext: s.fnext as int,
        copied: s.copied as int,
        merged: view_items(s.merged@),
        errors: view_items(s.errors@),
    }
}

pub open spec fn merge_step_view(s: Step<MergeState, Json>) -> StepV<MergeStateV, JsonV> {
    match s {
        Step::Call(st, c) => StepV::Call(merge_view(st), crate::call::call_view(c)),
        Step::Done(Ok(v)) => StepV::Done(Ok(v@)),
        Step::Done(Err(e)) => StepV::Done(Err(e@)),
    }
}

/// The well-formed states of a merge with a call under way.
pub open spec fn merge_wf(s: MergeStateV) -> bool {
    &&& 0 <= s.idx < s.sources.len()
    &&& 0 <= s.copied <= s.fnext <= s.followups.len()
    &&& (s.phase == MergePhase::CopyFollowup ==> s.fnext < s.followups.len())
}

/// The source ticket being merged.
pub open spec fn current_source(s: MergeStateV) -> int {
    s.sources[s.idx] as int
}

/// The summary of a whole merge.
pub open spec fn merge_summary(s: MergeStateV) -> JsonV {
    JsonV::Object(seq![
        ("target_ticket_id"@, JsonV::Int(s.target)),
        ("merged"@, JsonV::Array(s.merged)),
        ("errors"@, JsonV::Array(s.errors)),
    ])
}

/// What a merged source reports: its link, the number of followups copied, and whether it
/// was closed.
pub open spec fn merged_entry(source: int, link: JsonV, copied: int, closed: bool) -> JsonV {
    JsonV::Object(seq![
        ("source_ticket_id"@, JsonV::Int(source)),
        ("link"@, link),
        ("followups_copied"@, JsonV::Int(copied)),
        ("closed"@, JsonV::Bool(closed)),
    ])
}

/// What a source whose merge failed reports.
pub open spec fn error_entry(source: int, e: Seq<char>) -> JsonV {
    JsonV::Object(seq![("source_ticket_id"@, JsonV::Int(source)), ("error"@, JsonV::Str(e))])
}

/// A followup of the source copied to the target, marked with where it came from.
pub open spec fn followup_copy_body(target: int, source: int, f: JsonV) -> JsonV {
    single("input"@, JsonV::Object(seq![
        ("items_id"@, JsonV::Int(target)),
        ("itemtype"@, JsonV::Str("Ticket"@)),
        ("content"@, JsonV::Str("[Merged from ticket #"@ + int_text(source) + "] "@ + str_field_spec(f, "content"@))),
        ("is_private"@, get_or(f, "is_private"@, JsonV::Int(0))),
    ]))
}

/// The public note left on the source, saying where it went.
pub open spec fn close_note_body(source: int, target: int) -> JsonV {
    single("input"@, JsonV::Object(seq![
        ("items_id"@, JsonV::Int(source)),
        ("itemtype"@, JsonV::Str("Ticket"@)),
        ("content"@, JsonV::Str("Merged into ticket #"@ + int_text(target) + "."@)),
        ("is_private"@, JsonV::Int(0)),
    ]))
}

/// Starts the merge of the source at `s.idx`, or ends with the summary when none is left.
pub open spec fn begin_source(s: MergeStateV) -> StepV<MergeStateV, JsonV> {
    if 0 <= s.idx < s.sources.len() {
        StepV::Call(
            MergeStateV { phase: MergePhase::Link, link: JsonV::Null, followups: Seq::empty(), fnext: 0, copied: 0, ..s },
            post_v("/Ticket_Ticket"@, link_body(s.sources[s.idx] as int, s.target, 2)),
        )
    } else {
        StepV::Done(Ok(merge_summary(s)))
    }
}

/// The current source is merged: report it and go on with the next.
pub open spec fn finish_source(s: MergeStateV, closed: bool) -> StepV<MergeStateV, JsonV> {
    begin_source(MergeStateV {
        idx: s.idx + 1,
        merged: s.merged.push(merged_entry(current_source(s), s.link, s.copied, closed)),
        ..s
    })
}

/// The current source failed: report the error and go on with the next.
pub open spec fn fail_source(s: MergeStateV, e: Seq<char>) -> StepV<MergeStateV, JsonV> {
    begin_source(MergeStateV { idx: s.idx + 1, errors: s.errors.push(error_entry(current_source(s), e)), ..s })
}

/// The followups are copied: close the source if asked, else it is merged.
pub open spec fn after_followups(s: MergeStateV) -> StepV<MergeStateV, JsonV> {
    if s.close_source {
        StepV::Call(
            MergeStateV { phase: MergePhase::CloseNote, ..s },
            post_v("/ITILFollowup"@, close_note_body(current_source(s), s.target)),
        )
    } else {
        finish_source(s, false)
    }
}

/// Copies the followup at `from`, if any is left.
pub open spec fn copy_from(s: MergeStateV, from: int) -> StepV<MergeStateV, JsonV> {
    if from < s.followups.len() {
        StepV::Call(
            MergeStateV { phase: MergePhase::CopyFollowup, fnext: from, ..s },
            post_v("/ITILFollowup"@, followup_copy_body(s.target, current_source(s), s.followups[from])),
        )
    } else {
        after_followups(MergeStateV { fnext: from, ..s })
    }
}

/// The first step of a merge.
pub open spec fn merge_start_spec(p: MergeTicketsParams) -> StepV<MergeStateV, JsonV> {
    begin_source(MergeStateV {
        target: p.target_ticket_id as int,
        sources: p.source_ticket_ids@,
        add_followups: p.add_followups,
        close_source: p.close_source,
        idx: 0,
        phase: MergePhase::Link,
        link: JsonV::Null,
        followups: Seq::empty(),
        fnext: 0,
        copied: 0,
        merged: Seq::empty(),
        errors: Seq::empty(),
    })
}

/// The step after a reply. An error fails the current source only; each source is linked
/// to the target as a duplicate, its followups copied when asked, and it is closed (with a
/// note) when asked; the summary lists the merged sources and the failed ones.
pub open spec fn merge_next_spec(s: MergeStateV, reply: Result<JsonV, Seq<char>>) -> StepV<MergeStateV, JsonV> {
    match reply {
        Err(e) => fail_source(s, e),
        Ok(v) => match s.phase {
            MergePhase::Link => {
                let s1 = MergeStateV { link: v, ..s };
                if s.add_followups {
                    StepV::Call(
                        MergeStateV { phase: MergePhase::FollowupsList, ..s1 },
                        get_v("/Ticket/"@ + int_text(current_source(s)) + "/ITILFollowup"@),
                    )
                } else {
                    after_followups(s1)
                }
            },
            MergePhase::FollowupsList => copy_from(MergeStateV { followups: array_items(v), fnext: 0, copied: 0, ..s }, 0),
            MergePhase::CopyFollowup => copy_from(MergeStateV { copied: s.copied + 1, ..s }, s.fnext + 1),
            MergePhase::CloseNote => StepV::Call(
                MergeStateV { phase: MergePhase::CloseStatus, ..s },
                put_v("/Ticket/"@ + int_text(current_source(s)), single("input"@, single("status"@, JsonV::Int(6)))),
            ),
            MergePhase::CloseStatus => finish_source(s, true),
        },
    }
}

fn empty_items() -> (v: Vec<Json>)
    ensures
        view_items(v@) == Seq::<JsonV>::empty(),
{
    let v: Vec<Json> = Vec::new();
    assert(view_items(v@) =~= Seq::<JsonV>::empty());
    v
}

fn begin_source_exec(s: MergeState) -> (r: Step<MergeState, Json>)
    requires
        s.idx <= s.sources.len(),
    ensures
        merge_step_view(r) == begin_source(merge_view(s)),
        r matches Step::Call(st, _) ==> merge_wf(merge_view(st)),
{
    let mut s = s;
    if s.idx < s.sources.len() {
        let c = link_call(s.sources[s.idx], s.target, 2);
        s.phase = MergePhase::Link;
        s.link = Json::Null;
        s.followups = empty_items();
        s.fnext = 0;
        s.copied = 0;
        Step::Call(s, c)
    } else {
        let mut m: Vec<(String, Json)> = Vec::new();
        push_member(&mut m, "target_ticket_id", jint(s.target));
        let ghost mv = view_items(s.merged@);
        let ghost ev = view_items(s.errors@);
        push_member(&mut m, "merged", Json::Array(s.merged));
        push_member(&mut m, "errors", Json::Array(s.errors));
        assert(view_members(m@) =~= seq![
            ("target_ticket_id"@, JsonV::Int(s.target as int)),
            ("merged"@, JsonV::Array(mv)),
            ("errors"@, JsonV::Array(ev)),
        ]);
        Step::Done(Ok(Json::Object(m)))
    }
}

fn finish_source_exec(s: MergeState, closed: bool) -> (r: Step<MergeState, Json>)
    requires
        merge_wf(merge_view(s)),
    ensures
        merge_step_view(r) == finish_source(merge_view(s), closed),
        r matches Step::Call(st, _) ==> merge_wf(merge_view(st)),
{
    let mut s = s;
    let mut m: Vec<(String, Json)> = Vec::new();
    push_member(&mut m, "source_ticket_id", jint(s.sources[s.idx]));
    let ghost lv = s.link@;
    let mut link = Json::Null;
    std::mem::swap(&mut link, &mut s.link);
    push_member(&mut m, "link", link);
    push_member(&mut m, "followups_copied", Json::Int(s.copied as i128));
    push_member(&mut m, "closed", Json::Bool(closed));
    assert(view_members(m@) =~= seq![
        ("source_ticket_id"@, JsonV::Int(s.sources@[s.idx as int] as int)),
        ("link"@, lv),
        ("followups_copied"@, JsonV::Int(s.copied as int)),
        ("closed"@, JsonV::Bool(closed)),
    ]);
    let e = Json::Object(m);
    proof {
        crate::json::lemma_view_items_push(s.merged@, e);
    }
    s.merged.push(e);
    assert(s.idx < s.sources.len());
    s.idx = s.idx + 1;
    let r = begin_source_exec(s);
    r
}

fn fail_source_exec(s: MergeState, err: String) -> (r: Step<MergeState, Json>)
    requires
        merge_wf(merge_view(s)),
    ensures
        merge_step_view(r) == fail_source(merge_view(s), err@),
        r matches Step::Call(st, _) ==> merge_wf(merge_view(st)),
{
    let mut s = s;
    let mut m: Vec<(String, Json)> = Vec::new();
    push_member(&mut m, "source_ticket_id", jint(s.sources[s.idx]));
    let ghost ev = err@;
    push_member(&mut m, "error", Json::Str(err));
    assert(view_members(m@) =~= seq![
        ("source_ticket_id"@, JsonV::Int(s.sources@[s.idx as int] as int)),
        ("error"@, JsonV::Str(ev)),
    ]);
    let e = Json::Object(m);
    proof {
        crate::json::lemma_view_items_push(s.errors@, e);
    }
    s.errors.push(e);
    assert(s.idx < s.sources.len());
    s.idx = s.idx + 1;
    begin_source_exec(s)
}

fn close_note_call(source: i64, target: i64) -> (c: Call)
    ensures
        crate::call::call_view(c) == post_v("/ITILFollowup"@, close_note_body(source as int, target as int)),
{
    let mut content: Vec<char> = Vec::new();
    extend_str(&mut content, "Merged into ticket #");
    push_int(&mut content, target as i128);
    extend_str(&mut content, ".");
    let mut m: Vec<(String, Json)> = Vec::new();
    push_member(&mut m, "items_id", jint(source));
    push_member(&mut m, "itemtype", jtext("Ticket"));
    push_member(&mut m, "content", Json::Str(string_of(content.as_slice())));
    push_member(&mut m, "is_private", jint(0));
    assert(view_members(m@) =~= seq![
        ("items_id"@, JsonV::Int(source as int)),
        ("itemtype"@, JsonV::Str("Ticket"@)),
        ("content"@, JsonV::Str("Merged into ticket #"@ + int_text(target as int) + "."@)),
        ("is_private"@, JsonV::Int(0)),
    ]);
    post(owned("/ITILFollowup"), input_of(Json::Object(m)))
}

fn after_followups_exec(s: MergeState) -> (r: Step<MergeState, Json>)
    requires
        merge_wf(merge_view(s)),
    ensures
        merge_step_view(r) == after_followups(merge_view(s)),
        r matches Step::Call(st, _) ==> merge_wf(merge_view(st)),
{
    let mut s = s;
    if s.close_source {
        let c = close_note_call(s.sources[s.idx], s.target);
        s.phase = MergePhase::CloseNote;
        Step::Call(s, c)
    } else {
        finish_source_exec(s, false)
    }
}

fn followup_copy_call(target: i64, source: i64, f: &Json) -> (c: Call)
    ensures
        crate::call::call_view(c) == post_v("/ITILFollowup"@, followup_copy_body(target as int, source as int, f@)),
{
    let mut content: Vec<char> = Vec::new();
    extend_str(&mut content, "[Merged from ticket #");
    push_int(&mut content, source as i128);
    extend_str(&mut content, "] ");
    extend_str(&mut content, str_field(f, "content").as_str());
    let mut m: Vec<(String, Json)> = Vec::new();
    push_member(&mut m, "items_id", jint(target));
    push_member(&mut m, "itemtype", jtext("Ticket"));
    push_member(&mut m, "content", Json::Str(string_of(content.as_slice())));
    push_member(&mut m, "is_private", get_or_exec(f, "is_private", jint(0)));
    assert(view_members(m@) =~= seq![
        ("items_id"@, JsonV::Int(target as int)),
        ("itemtype"@, JsonV::Str("Ticket"@)),
        ("content"@, JsonV::Str("[Merged from ticket #"@ + int_text(source as int) + "] "@ + str_field_spec(f@, "content"@))),
        ("is_private"@, get_or(f@, "is_private"@, JsonV::Int(0))),
    ]);
    post(owned("/ITILFollowup"), input_of(Json::Object(m)))
}

fn copy_from_exec(s: MergeState, from: usize) -> (r: Step<MergeState, Json>)
    requires
        s.idx < s.sources.len(),
        s.copied <= from <= s.followups.len(),
    ensures
        merge_step_view(r) == copy_from(merge_view(s), from as int),
        r matches Step::Call(st, _) ==> merge_wf(merge_view(st)),
{
    let mut s = s;
    if from < s.followups.len() {
        let c = followup_copy_call(s.target, s.sources[s.idx], &s.followups[from]);
        s.phase = MergePhase::CopyFollowup;
        s.fnext = from;
        Step::Call(s, c)
    } else {
        s.fnext = from;
        s.phase = MergePhase::FollowupsList;
        after_followups_exec(s)
    }
}

/// Starts merging the source tickets into the target.
pub fn merge_tickets_start(p: &MergeTicketsParams) -> (r: Step<MergeState, Json>)
    ensures
        merge_step_view(r) == merge_start_spec(*p),
        r matches Step::Call(st, _) ==> merge_wf(merge_view(st)),
{
    let s = MergeState {
        target: p.target_ticket_id,
        sources: p.source_ticket_ids.clone(),
        add_followups: p.add_followups,
        close_source: p.close_source,
        idx: 0,
        phase: MergePhase::Link,
        link: Json::Null,
        followups: empty_items(),
        fnext: 0,
        copied: 0,
        merged: empty_items(),
        errors: empty_items(),
    };
    begin_source_exec(s)
}

/// The step after a reply in a merge.
pub fn merge_tickets_next(s: MergeState, reply: Result<Json, GlpiError>) -> (r: Step<MergeState, Json>)
    requires
        merge_wf(merge_view(s)),
    ensures
        merge_step_view(r) == merge_next_spec(merge_view(s), reply_view(reply)),
        r matches Step::Call(st, _) ==> merge_wf(merge_view(st)),
{
    let v = match reply {
        Err(e) => return fail_source_exec(s, e.message()),
        Ok(v) => v,
    };
    let mut s = s;
    match s.phase {
        MergePhase::Link => {
            s.link = v;
            if s.add_followups {
                let c = get(path_id_suffix("/Ticket/", s.sources[s.idx], "/ITILFollowup"));
                s.phase = MergePhase::FollowupsList;
                Step::Call(s, c)
            } else {
                after_followups_exec(s)
            }
        },
        MergePhase::FollowupsList => {
            s.followups = crate::markdown::into_array(v);
            s.fnext = 0;
            s.copied = 0;
            copy_from_exec(s, 0)
        },
        MergePhase::CopyFollowup => {
            assert(s.fnext < s.followups.len());
            s.copied = s.copied + 1;
            let from = s.fnext + 1;
            copy_from_exec(s, from)
        },
        MergePhase::CloseNote => {
            let mut st: Vec<(String, Json)> = Vec::new();
            push_member(&mut st, "status", jint(6));
            assert(view_members(st@) =~= seq![("status"@, JsonV::Int(6))]);
            let c = put(path_id("/Ticket/", s.sources[s.idx]), input_of(Json::Object(st)));
            s.phase = MergePhase::CloseStatus;
            Step::Call(s, c)
        },
        MergePhase::CloseStatus => finish_source_exec(s, true),
    }
}

} // verus!
