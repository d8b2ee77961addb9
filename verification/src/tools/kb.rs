//! The knowledge base: articles, categories and who may read them.
use vstd::prelude::*;
use crate::call::{
    flag, get, get_q_v, get_query, get_v, input_of, jflag, jint, json_answer, json_out_view, pairs_view, path_id,
    path_id_suffix, post, post_v, push_member, push_param, put, put_v, single, Call, CallV,
};
use crate::error::GlpiError;
use crate::json::{copy_string, member_insert, owned, view_items, view_members, Json, JsonV};
use crate::labels::{labels_view, Labels};
use crate::step::{reply_view, Step, StepV};
use crate::text::int_text;
use crate::tools::tickets::{map_json, range_fits, range_string, range_text};

verus! {

broadcast use vstd::string::group_string_axioms;

/// The page size by default: 50 articles.
pub fn default_range_limit() -> (r: i64)
    ensures
        r == 50,
{
    50
}

pub struct ListKbArticlesParams {
    pub range_start: i64,
    pub range_limit: i64,
}

/// Whether the page size is cut down: past the first 60 articles, at most 10 are read at a
/// time, since GLPI's memory runs out on large HTML bodies.
pub open spec fn kb_clamped(start: int, limit: int) -> bool {
    start > 60 && limit > 10
}

/// The page size read.
pub open spec fn kb_limit(start: int, limit: int) -> int {
    if kb_clamped(start, limit) { 10 } else { limit }
}

/// The page size read for a page from `start` of `limit` articles.
pub fn kb_page_limit(start: i64, limit: i64) -> (r: i64)
    ensures
        r == kb_limit(start as int, limit as int),
{
    if start > 60 && limit > 10 { 10 } else { limit }
}

/// Lists a page of articles. The page's bounds must fit in an `i64`.
pub fn list_kb_articles_call(p: &ListKbArticlesParams) -> (c: Call)
    requires
        range_fits(p.range_start as int, kb_limit(p.range_start as int, p.range_limit as int)),
    ensures
        crate::call::call_view(c) == get_q_v(
            "/KnowbaseItem"@,
            seq![("range"@, range_text(p.range_start as int, kb_limit(p.range_start as int, p.range_limit as int)))],
        ),
{
    let limit = kb_page_limit(p.range_start, p.range_limit);
    let mut q: Vec<(String, String)> = Vec::new();
    push_param(&mut q, "range", range_string(p.range_start, limit));
    assert(pairs_view(q@) =~= seq![("range"@, range_text(p.range_start as int, kb_limit(p.range_start as int, p.range_limit as int)))]);
    get_query(owned("/KnowbaseItem"), q)
}

/// A clamped page, marked: an array becomes an object holding the limit, the warning and the
/// items; an object gets the limit and the warning; any other value stays as it is.
pub open spec fn clamp_marked(v: JsonV, warning: Seq<char>) -> JsonV {
    match v {
        JsonV::Array(items) => JsonV::Object(seq![
            ("_clamped_range_limit"@, JsonV::Int(10)),
            ("_warning"@, JsonV::Str(warning)),
            ("items"@, JsonV::Array(items)),
        ]),
        JsonV::Object(m) => JsonV::Object(member_insert(
            member_insert(m, "_clamped_range_limit"@, JsonV::Int(10)),
            "_warning"@,
            JsonV::Str(warning),
        )),
        _ => v,
    }
}

/// The page as read, marked when its size was cut down.
pub fn list_kb_articles_answer(labels: &Labels, p: &ListKbArticlesParams, r: Result<Json, GlpiError>) -> (out: Result<Json, String>)
    ensures
        json_out_view(out) == if kb_clamped(p.range_start as int, p.range_limit as int) {
            map_json(reply_view(r), |v: JsonV| clamp_marked(v, labels_view(labels).kb_clamp_warning))
        } else {
            json_answer(r)
        },
{
    let v = match r {
        Ok(v) => v,
        Err(e) => return Err(e.message()),
    };
    if !(p.range_start > 60 && p.range_limit > 10) {
        return Ok(v);
    }
    match v {
        Json::Array(items) => {
            let mut m: Vec<(String, Json)> = Vec::new();
            push_member(&mut m, "_clamped_range_limit", jint(10));
            push_member(&mut m, "_warning", Json::Str(owned(labels.kb_clamp_warning)));
            let ghost iv = view_items(items@);
            push_member(&mut m, "items", Json::Array(items));
            assert(view_members(m@) =~= seq![
                ("_clamped_range_limit"@, JsonV::Int(10)),
                ("_warning"@, JsonV::Str(labels.kb_clamp_warning@)),
                ("items"@, JsonV::Array(iv)),
            ]);
            Ok(Json::Object(m))
        },
        Json::Object(m) => {
            let mut o = Json::Object(m);
            o.insert(owned("_clamped_range_limit"), jint(10));
            o.insert(owned("_warning"), Json::Str(owned(labels.kb_clamp_warning)));
            Ok(o)
        },
        other => Ok(other),
    }
}

pub struct GetKbArticleParams {
    pub article_id: i64,
}

/// Reads one article.
pub fn get_kb_article_call(p: &GetKbArticleParams) -> (c: Call)
    ensures
        crate::call::call_view(c) == get_v("/KnowbaseItem/"@ + int_text(p.article_id as int)),
{
    get(path_id("/KnowbaseItem/", p.article_id))
}

pub struct SearchKbArticlesParams {
    pub keywords: String,
    pub range_start: i64,
    pub range_limit: i64,
    /// Also match against the article body; only enable when the GLPI DB has a FULLTEXT
    /// index on knowbaseitems.answer, otherwise the request is slow.
    pub search_content: bool,
}

/// The search's parameters: the title field contains the keywords, or, with
/// `search_content`, the title or the body does.
pub open spec fn kb_search_params(p: SearchKbArticlesParams, name_field: Seq<char>, answer_field: Seq<char>) -> Seq<(Seq<char>, Seq<char>)> {
    let base = seq![
        ("range"@, range_text(p.range_start as int, p.range_limit as int)),
        ("criteria[0][field]"@, name_field),
        ("criteria[0][searchtype]"@, "contains"@),
        ("criteria[0][value]"@, p.keywords@),
    ];
    if p.search_content {
        base + seq![
            ("criteria[0][link]"@, "AND"@),
            ("criteria[1][link]"@, "OR"@),
            ("criteria[1][field]"@, answer_field),
            ("criteria[1][searchtype]"@, "contains"@),
            ("criteria[1][value]"@, p.keywords@),
        ]
    } else {
        base
    }
}

/// Searches the articles, with the search field ids of the title and the body as this GLPI
/// numbers them (see `search_options`). The page's bounds must fit in an `i64`.
pub fn search_kb_articles_call(p: &SearchKbArticlesParams, name_field: &str, answer_field: &str) -> (c: Call)
    requires
        range_fits(p.range_start as int, p.range_limit as int),
    ensures
        crate::call::call_view(c) == get_q_v("/search/KnowbaseItem"@, kb_search_params(*p, name_field@, answer_field@)),
{
    let mut q: Vec<(String, String)> = Vec::new();
    push_param(&mut q, "range", range_string(p.range_start, p.range_limit));
    push_param(&mut q, "criteria[0][field]", owned(name_field));
    push_param(&mut q, "criteria[0][searchtype]", owned("contains"));
    push_param(&mut q, "criteria[0][value]", copy_string(&p.keywords));
    let ghost base = pairs_view(q@);
    if p.search_content {
        push_param(&mut q, "criteria[0][link]", owned("AND"));
        push_param(&mut q, "criteria[1][link]", owned("OR"));
        push_param(&mut q, "criteria[1][field]", owned(answer_field));
        push_param(&mut q, "criteria[1][searchtype]", owned("contains"));
        push_param(&mut q, "criteria[1][value]", copy_string(&p.keywords));
    }
    assert(pairs_view(q@) =~= kb_search_params(*p, name_field@, answer_field@));
    get_query(owned("/search/KnowbaseItem"), q)
}

pub struct CreateKbArticleParams {
    pub name: String,
    /// Article content/solution, HTML accepted.
    pub answer: String,
    pub category_id: Option<i64>,
    /// True to publish in the public FAQ.
    pub is_faq: bool,
}

/// The fields of a new article: name, body, FAQ flag, then the category when given.
pub open spec fn kb_article_input(p: CreateKbArticleParams) -> Seq<(Seq<char>, JsonV)> {
    let base = seq![("name"@, JsonV::Str(p.name@)), ("answer"@, JsonV::Str(p.answer@)), ("is_faq"@, flag(p.is_faq))];
    match p.category_id {
        Some(c) => base.push(("knowbaseitemcategories_id"@, JsonV::Int(c as int))),
        None => base,
    }
}

/// Creates an article.
pub fn create_kb_article_call(p: &CreateKbArticleParams) -> (c: Call)
    ensures
        crate::call::call_view(c) == post_v("/KnowbaseItem"@, single("input"@, JsonV::Object(kb_article_input(*p)))),
{
    let mut m: Vec<(String, Json)> = Vec::new();
    push_member(&mut m, "name", Json::Str(copy_string(&p.name)));
    push_member(&mut m, "answer", Json::Str(copy_string(&p.answer)));
    push_member(&mut m, "is_faq", jflag(p.is_faq));
    match p.category_id {
        Some(c) => push_member(&mut m, "knowbaseitemcategories_id", jint(c)),
        None => {},
    }
    assert(view_members(m@) =~= kb_article_input(*p));
    post(owned("/KnowbaseItem"), input_of(Json::Object(m)))
}

pub struct UpdateKbArticleParams {
    pub article_id: i64,
    /// Fields to change, e.g. name, answer, is_faq, knowbaseitemcategories_id.
    pub update_fields: Json,
}

/// Writes the given fields of an article.
pub fn update_kb_article_call(p: &UpdateKbArticleParams) -> (c: Call)
    ensures
        crate::call::call_view(c) == put_v("/KnowbaseItem/"@ + int_text(p.article_id as int), single("input"@, p.update_fields@)),
{
    put(path_id("/KnowbaseItem/", p.article_id), input_of(p.update_fields.deep_clone()))
}

/// Lists the knowledge base categories.
pub fn list_kb_categories_call() -> (c: Call)
    ensures
        crate::call::call_view(c) == get_v("/KnowbaseItemCategory"@),
{
    get(owned("/KnowbaseItemCategory"))
}

pub struct GetKbArticleVisibilityParams {
    pub article_id: i64,
}

/// Where the reading of an article's visibility stands: the replies so far (profiles,
/// groups, users, then entities).
pub struct VisibilityState {
    pub article_id: i64,
    pub found: Vec<Json>,
}

pub struct VisibilityStateV {
    pub article_id: int,
    pub found: Seq<JsonV>,
}

pub open spec fn visibility_view(s: VisibilityState) -> VisibilityStateV {
    VisibilityStateV { article_id: s.article_id as int, found: view_items(s.found@) }
}

pub open spec fn visibility_step_view(s: Step<VisibilityState, Json>) -> StepV<VisibilityStateV, JsonV> {
    match s {
        Step::Call(st, c) => StepV::Call(visibility_view(st), crate::call::call_view(c)),
        Step::Done(Ok(v)) => StepV::Done(Ok(v@)),
        Step::Done(Err(e)) => StepV::Done(Err(e@)),
    }
}

/// The endpoint of the `k`-th kind of visibility entries.
pub open spec fn visibility_kind(k: int) -> Seq<char> {
    if k == 0 {
        "/KnowbaseItem_Profile"@
    } else if k == 1 {
        "/KnowbaseItem_Group"@
    } else if k == 2 {
        "/KnowbaseItem_User"@
    } else {
        "/Entity_KnowbaseItem"@
    }
}

/// The read of the `k`-th kind of visibility entries of an article.
pub open spec fn visibility_v(article_id: int, k: int) -> CallV {
    get_v("/KnowbaseItem/"@ + int_text(article_id) + visibility_kind(k))
}

/// The answer: the four lists under their names.
pub open spec fn visibility_answer(found: Seq<JsonV>) -> JsonV {
    JsonV::Object(seq![
        ("profiles"@, found[0]),
        ("groups"@, found[1]),
        ("users"@, found[2]),
        ("entities"@, found[3]),
    ])
}

/// The first step: read the profiles.
pub open spec fn visibility_start_spec(article_id: int) -> StepV<VisibilityStateV, JsonV> {
    StepV::Call(VisibilityStateV { article_id, found: Seq::empty() }, visibility_v(article_id, 0))
}

/// The step after a reply: any error ends the reading; else the next kind is read, and
/// after the fourth the answer gathers them.
pub open spec fn visibility_next_spec(s: VisibilityStateV, reply: Result<JsonV, Seq<char>>) -> StepV<VisibilityStateV, JsonV> {
    match reply {
        Err(e) => StepV::Done(Err(e)),
        Ok(v) => {
            let found = s.found.push(v);
            if found.len() == 4 {
                StepV::Done(Ok(visibility_answer(found)))
            } else {
                StepV::Call(VisibilityStateV { found, ..s }, visibility_v(s.article_id, found.len() as int))
            }
        },
    }
}

fn visibility_call(article_id: i64, k: usize) -> (c: Call)
    requires
        k < 4,
    ensures
        crate::call::call_view(c) == visibility_v(article_id as int, k as int),
{
    let suffix = if k == 0 {
        "/KnowbaseItem_Profile"
    } else if k == 1 {
        "/KnowbaseItem_Group"
    } else if k == 2 {
        "/KnowbaseItem_User"
    } else {
        "/Entity_KnowbaseItem"
    };
    get(path_id_suffix("/KnowbaseItem/", article_id, suffix))
}

/// Starts reading who may see an article.
pub fn get_kb_article_visibility_start(p: &GetKbArticleVisibilityParams) -> (r: Step<VisibilityState, Json>)
    ensures
        visibility_step_view(r) == visibility_start_spec(p.article_id as int),
        r matches Step::Call(st, _) && st.found.len() < 4,
{
    let found: Vec<Json> = Vec::new();
    assert(view_items(found@) =~= Seq::<JsonV>::empty());
    Step::Call(VisibilityState { article_id: p.article_id, found }, visibility_call(p.article_id, 0))
}

/// The step after a reply while reading who may see an article.
pub fn get_kb_article_visibility_next(s: VisibilityState, reply: Result<Json, GlpiError>) -> (r: Step<VisibilityState, Json>)
    requires
        s.found.len() < 4,
    ensures
        visibility_step_view(r) == visibility_next_spec(visibility_view(s), reply_view(reply)),
        r matches Step::Call(st, _) ==> st.found.len() < 4,
{
    let v = match reply {
        Err(e) => return Step::Done(Err(e.message())),
        Ok(v) => v,
    };
    let mut s = s;
    proof {
        crate::json::lemma_view_items_push(s.found@, v);
    }
    s.found.push(v);
    if s.found.len() == 4 {
        let mut found = s.found;
        let ghost fv = view_items(found@);
        let entities = found.pop().unwrap();
        let users = found.pop().unwrap();
        let groups = found.pop().unwrap();
        let profiles = found.pop().unwrap();
        let mut m: Vec<(String, Json)> = Vec::new();
        push_member(&mut m, "profiles", profiles);
        push_member(&mut m, "groups", groups);
        push_member(&mut m, "users", users);
        push_member(&mut m, "entities", entities);
        assert(view_members(m@) =~= seq![
            ("profiles"@, fv[0]),
            ("groups"@, fv[1]),
            ("users"@, fv[2]),
            ("entities"@, fv[3]),
        ]);
        Step::Done(Ok(Json::Object(m)))
    } else {
        let c = visibility_call(s.article_id, s.found.len());
        Step::Call(s, c)
    }
}

pub struct AddKbVisibilityProfileParams {
    pub article_id: i64,
    pub profiles_id: i64,
    /// 0 = root entity.
    pub entities_id: i64,
    /// Apply to sub-entities.
    pub is_recursive: bool,
}

/// The new visibility entry of an article for a profile or a group (`key` names which).
pub open spec fn visibility_entry(article_id: int, key: Seq<char>, id: int, entities_id: int, is_recursive: bool) -> JsonV {
    single("input"@, JsonV::Object(seq![
        ("knowbaseitems_id"@, JsonV::Int(article_id)),
        (key, JsonV::Int(id)),
        ("entities_id"@, JsonV::Int(entities_id)),
        ("is_recursive"@, flag(is_recursive)),
    ]))
}

fn visibility_entry_call(endpoint: &str, article_id: i64, key: &str, id: i64, entities_id: i64, is_recursive: bool) -> (c: Call)
    ensures
        crate::call::call_view(c) == post_v(endpoint@, visibility_entry(article_id as int, key@, id as int, entities_id as int, is_recursive)),
{
    let mut m: Vec<(String, Json)> = Vec::new();
    push_member(&mut m, "knowbaseitems_id", jint(article_id));
    push_member(&mut m, key, jint(id));
    push_member(&mut m, "entities_id", jint(entities_id));
    push_member(&mut m, "is_recursive", jflag(is_recursive));
    assert(view_members(m@) =~= seq![
        ("knowbaseitems_id"@, JsonV::Int(article_id as int)),
        (key@, JsonV::Int(id as int)),
        ("entities_id"@, JsonV::Int(entities_id as int)),
        ("is_recursive"@, flag(is_recursive)),
    ]);
    post(owned(endpoint), input_of(Json::Object(m)))
}

/// Lets a profile see an article.
pub fn add_kb_article_visibility_profile_call(p: &AddKbVisibilityProfileParams) -> (c: Call)
    ensures
        crate::call::call_view(c) == post_v(
            "/KnowbaseItem_Profile"@,
            visibility_entry(p.article_id as int, "profiles_id"@, p.profiles_id as int, p.entities_id as int, p.is_recursive),
        ),
{
    visibility_entry_call("/KnowbaseItem_Profile", p.article_id, "profiles_id", p.profiles_id, p.entities_id, p.is_recursive)
}

pub struct AddKbVisibilityGroupParams {
    pub article_id: i64,
    pub groups_id: i64,
    pub entities_id: i64,
    pub is_recursive: bool,
}

/// Lets a group see an article.
pub fn add_kb_article_visibility_group_call(p: &AddKbVisibilityGroupParams) -> (c: Call)
    ensures
        crate::call::call_view(c) == post_v(
            "/KnowbaseItem_Group"@,
            visibility_entry(p.article_id as int, "groups_id"@, p.groups_id as int, p.entities_id as int, p.is_recursive),
        ),
{
    visibility_entry_call("/KnowbaseItem_Group", p.article_id, "groups_id", p.groups_id, p.entities_id, p.is_recursive)
}

pub struct UpdateKbVisibilityParams {
    /// ID of the visibility entry, obtained via get_kb_article_visibility.
    pub visibility_id: i64,
    pub update_fields: Json,
}

/// Writes the given fields of a profile's visibility entry.
pub fn update_kb_article_visibility_profile_call(p: &UpdateKbVisibilityParams) -> (c: Call)
    ensures
        crate::call::call_view(c) == put_v("/KnowbaseItem_Profile/"@ + int_text(p.visibility_id as int), single("input"@, p.update_fields@)),
{
    put(path_id("/KnowbaseItem_Profile/", p.visibility_id), input_of(p.update_fields.deep_clone()))
}

/// Writes the given fields of a group's visibility entry.
pub fn update_kb_article_visibility_group_call(p: &UpdateKbVisibilityParams) -> (c: Call)
    ensures
        crate::call::call_view(c) == put_v("/KnowbaseItem_Group/"@ + int_text(p.visibility_id as int), single("input"@, p.update_fields@)),
{
    put(path_id("/KnowbaseItem_Group/", p.visibility_id), input_of(p.update_fields.deep_clone()))
}


/// Past the first 60 articles a page holds at most 10; elsewhere, and for pages of at most 10,
/// the page size asked for is kept.
pub proof fn lemma_kb_page_size(start: int, limit: int)
    ensures
        start > 60 ==> kb_limit(start, limit) <= 10,
        (start <= 60 || limit <= 10) ==> kb_limit(start, limit) == limit,
{
}

} // verus!
