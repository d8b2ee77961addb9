//! GLPI users and groups.
use vstd::prelude::*;
use crate::call::{
    delete, delete_v, flag, get, get_q_v, get_query, get_v, input_of, jflag, jint, pairs_view, path_id, post, post_v,
    push_member, push_param, single, text_out_view, Call, CallV,
};
use crate::error::GlpiError;
use crate::json::{copy_string, jget_i64, owned, view_items, view_members, Json, JsonV};
use crate::markdown::{
    array_items, escape_cell, escape_cell_spec, id_field, id_field_spec, into_array, rows_view, str_field,
    str_field_spec, strings_view, strs_view,
};
use crate::step::{reply_view, Step};
use crate::text::int_text;
use crate::tools::common::{
    build_rows, counted_table, counted_table_spec, created_answer, created_spec, data_items, data_rows, id_message,
    map_ok, quoted_created, quoted_created_exec, text_answer, text_answer_spec, yes_no, yes_no_exec,
};
use crate::tools::hierarchy::{
    keep_parent_next, keep_parent_start, keep_parent_start_spec, keep_parent_step_view, tree_name, tree_name_exec,
    KeepParentState,
};

verus! {

broadcast use vstd::string::group_string_axioms;

/// Default flag value: true.
pub fn default_true() -> (r: bool)
    ensures
        r,
{
    true
}

/// Lists the users.
pub fn get_users_call() -> (c: Call)
    ensures
        crate::call::call_view(c) == get_v("/User"@),
{
    get(owned("/User"))
}

/// A user's row: id, login, first name, last name, and whether the account is active
/// (an account without the flag counts as active).
pub open spec fn user_row(u: JsonV) -> Seq<Seq<char>> {
    let active = match jget_i64(u, "is_active"@) {
        Some(n) => n == 1,
        None => true,
    };
    seq![
        id_field_spec(u, "id"@),
        escape_cell_spec(str_field_spec(u, "name"@)),
        escape_cell_spec(str_field_spec(u, "firstname"@)),
        escape_cell_spec(str_field_spec(u, "realname"@)),
        yes_no(active),
    ]
}

fn user_row_exec(u: &Json) -> (r: Vec<String>)
    ensures
        strings_view(r@) == user_row(u@),
{
    let active = match u.get_i64("is_active") {
        Some(n) => n == 1,
        None => true,
    };
    let mut r: Vec<String> = Vec::new();
    r.push(id_field(u, "id"));
    r.push(escape_cell(str_field(u, "name").as_str()));
    r.push(escape_cell(str_field(u, "firstname").as_str()));
    r.push(escape_cell(str_field(u, "realname").as_str()));
    r.push(yes_no_exec(active));
    assert(strings_view(r@) =~= user_row(u@));
    r
}

/// The table of the users.
pub open spec fn users_text(v: JsonV) -> Seq<char> {
    let items = array_items(v);
    if items.len() == 0 {
        "No users."@
    } else {
        counted_table_spec(
            items.len() as int,
            " user(s)"@,
            seq!["ID"@, "Login"@, "First name"@, "Last name"@, "Active"@],
            items.map_values(|u: JsonV| user_row(u)),
        )
    }
}

/// The answer listing the users.
pub fn get_users_answer(r: Result<Json, GlpiError>) -> (out: Result<String, String>)
    ensures
        text_out_view(out) == map_ok(reply_view(r), |v: JsonV| users_text(v)),
{
    let v = match r {
        Ok(v) => v,
        Err(e) => return Err(e.message()),
    };
    let items = into_array(v);
    if items.len() == 0 {
        return Ok(owned("No users."));
    }
    let rows = build_rows(&items, user_row_exec);
    let headers = ["ID", "Login", "First name", "Last name", "Active"];
    proof {
        assert(rows_view(rows@) =~= view_items(items@).map_values(|u: JsonV| user_row(u)));
        assert(strs_view(headers@) =~= seq!["ID"@, "Login"@, "First name"@, "Last name"@, "Active"@]);
    }
    Ok(counted_table(items.len(), " user(s)", &headers, &rows))
}

/// Lists the groups.
pub fn get_groups_call() -> (c: Call)
    ensures
        crate::call::call_view(c) == get_v("/Group"@),
{
    get(owned("/Group"))
}

/// A group's row: id, full name, comment.
pub open spec fn group_row(g: JsonV) -> Seq<Seq<char>> {
    seq![id_field_spec(g, "id"@), escape_cell_spec(tree_name(g)), escape_cell_spec(str_field_spec(g, "comment"@))]
}

fn group_row_exec(g: &Json) -> (r: Vec<String>)
    ensures
        strings_view(r@) == group_row(g@),
{
    let mut r: Vec<String> = Vec::new();
    r.push(id_field(g, "id"));
    r.push(escape_cell(tree_name_exec(g).as_str()));
    r.push(escape_cell(str_field(g, "comment").as_str()));
    assert(strings_view(r@) =~= group_row(g@));
    r
}

/// The table of the groups.
pub open spec fn groups_text(v: JsonV) -> Seq<char> {
    let items = array_items(v);
    if items.len() == 0 {
        "No groups."@
    } else {
        counted_table_spec(items.len() as int, " group(s)"@, seq!["ID"@, "Name"@, "Comment"@], items.map_values(|g: JsonV| group_row(g)))
    }
}

/// The answer listing the groups.
pub fn get_groups_answer(r: Result<Json, GlpiError>) -> (out: Result<String, String>)
    ensures
        text_out_view(out) == map_ok(reply_view(r), |v: JsonV| groups_text(v)),
{
    let v = match r {
        Ok(v) => v,
        Err(e) => return Err(e.message()),
    };
    let items = into_array(v);
    if items.len() == 0 {
        return Ok(owned("No groups."));
    }
    let rows = build_rows(&items, group_row_exec);
    let headers = ["ID", "Name", "Comment"];
    proof {
        assert(rows_view(rows@) =~= view_items(items@).map_values(|g: JsonV| group_row(g)));
        assert(strs_view(headers@) =~= seq!["ID"@, "Name"@, "Comment"@]);
    }
    Ok(counted_table(items.len(), " group(s)", &headers, &rows))
}

pub struct FindGroupParams {
    /// Name or acronym to search for (case-insensitive, partial match).
    pub name: String,
}

/// The search for groups by name: ids (field 2), paths (field 1) and comments (field 16).
pub open spec fn find_group_v(name: Seq<char>) -> CallV {
    get_q_v("/search/Group"@, seq![
        ("criteria[0][field]"@, "14"@),
        ("criteria[0][searchtype]"@, "contains"@),
        ("criteria[0][value]"@, name),
        ("forcedisplay[0]"@, "2"@),
        ("forcedisplay[1]"@, "1"@),
        ("forcedisplay[2]"@, "16"@),
    ])
}

/// Searches the groups by name.
pub fn find_group_call(p: &FindGroupParams) -> (c: Call)
    ensures
        crate::call::call_view(c) == find_group_v(p.name@),
{
    let mut q: Vec<(String, String)> = Vec::new();
    push_param(&mut q, "criteria[0][field]", owned("14"));
    push_param(&mut q, "criteria[0][searchtype]", owned("contains"));
    push_param(&mut q, "criteria[0][value]", copy_string(&p.name));
    push_param(&mut q, "forcedisplay[0]", owned("2"));
    push_param(&mut q, "forcedisplay[1]", owned("1"));
    push_param(&mut q, "forcedisplay[2]", owned("16"));
    assert(pairs_view(q@) =~= seq![
        ("criteria[0][field]"@, "14"@),
        ("criteria[0][searchtype]"@, "contains"@),
        ("criteria[0][value]"@, p.name@),
        ("forcedisplay[0]"@, "2"@),
        ("forcedisplay[1]"@, "1"@),
        ("forcedisplay[2]"@, "16"@),
    ]);
    get_query(owned("/search/Group"), q)
}

/// A found group's row: id, path, comment.
pub open spec fn found_group_row(row: JsonV) -> Seq<Seq<char>> {
    seq![id_field_spec(row, "2"@), escape_cell_spec(str_field_spec(row, "1"@)), escape_cell_spec(str_field_spec(row, "16"@))]
}

fn found_group_row_exec(row: &Json) -> (r: Vec<String>)
    ensures
        strings_view(r@) == found_group_row(row@),
{
    let mut r: Vec<String> = Vec::new();
    r.push(id_field(row, "2"));
    r.push(escape_cell(str_field(row, "1").as_str()));
    r.push(escape_cell(str_field(row, "16").as_str()));
    assert(strings_view(r@) =~= found_group_row(row@));
    r
}

/// The table of the groups found.
pub open spec fn found_groups_text(v: JsonV) -> Seq<char> {
    let items = data_items(v);
    if items.len() == 0 {
        "No matching groups."@
    } else {
        counted_table_spec(items.len() as int, " group(s) found"@, seq!["ID"@, "Path"@, "Comment"@], items.map_values(|r: JsonV| found_group_row(r)))
    }
}

/// The answer to a group search.
pub fn find_group_answer(r: Result<Json, GlpiError>) -> (out: Result<String, String>)
    ensures
        text_out_view(out) == map_ok(reply_view(r), |v: JsonV| found_groups_text(v)),
{
    let v = match r {
        Ok(v) => v,
        Err(e) => return Err(e.message()),
    };
    let items = data_rows(&v);
    if items.len() == 0 {
        return Ok(owned("No matching groups."));
    }
    let rows = build_rows(&items, found_group_row_exec);
    let headers = ["ID", "Path", "Comment"];
    proof {
        assert(rows_view(rows@) =~= view_items(items@).map_values(|r: JsonV| found_group_row(r)));
        assert(strs_view(headers@) =~= seq!["ID"@, "Path"@, "Comment"@]);
    }
    Ok(counted_table(items.len(), " group(s) found", &headers, &rows))
}

pub struct CreateGroupParams {
    pub name: String,
    pub comment: Option<String>,
    /// Parent group ID for the tree hierarchy; omit for a root group.
    pub parent_group_id: Option<i64>,
    /// Owning entity ID (0 = root entity).
    pub entities_id: i64,
    /// Visible in sub-entities.
    pub is_recursive: bool,
    pub is_requester: bool,
    pub is_watcher: bool,
    pub is_assign: bool,
    pub is_task: bool,
    /// Can contain items.
    pub is_itemgroup: bool,
    /// Can contain users.
    pub is_usergroup: bool,
    pub is_manager: bool,
    pub is_notify: bool,
}

/// The fields of a new group: the name, entity and flags, then the comment and the parent
/// when given.
pub open spec fn group_input(p: CreateGroupParams) -> Seq<(Seq<char>, JsonV)> {
    let base = group_base(p);
    let with_comment = match p.comment {
        Some(c) => base.push(("comment"@, JsonV::Str(c@))),
        None => base,
    };
    match p.parent_group_id {
        Some(g) => with_comment.push(("groups_id"@, JsonV::Int(g as int))),
        None => with_comment,
    }
}

/// The name, entity and flags of a new group.
pub open spec fn group_base(p: CreateGroupParams) -> Seq<(Seq<char>, JsonV)> {
    seq![
        ("name"@, JsonV::Str(p.name@)),
        ("entities_id"@, JsonV::Int(p.entities_id as int)),
        ("is_recursive"@, flag(p.is_recursive)),
        ("is_requester"@, flag(p.is_requester)),
        ("is_watcher"@, flag(p.is_watcher)),
        ("is_assign"@, flag(p.is_assign)),
        ("is_task"@, flag(p.is_task)),
        ("is_itemgroup"@, flag(p.is_itemgroup)),
        ("is_usergroup"@, flag(p.is_usergroup)),
        ("is_manager"@, flag(p.is_manager)),
        ("is_notify"@, flag(p.is_notify)),
    ]
}

fn group_base_members(p: &CreateGroupParams) -> (m: Vec<(String, Json)>)
    ensures
        view_members(m@) == group_base(*p),
{
    let mut m: Vec<(String, Json)> = Vec::new();
    push_member(&mut m, "name", Json::Str(copy_string(&p.name)));
    push_member(&mut m, "entities_id", jint(p.entities_id));
    push_member(&mut m, "is_recursive", jflag(p.is_recursive));
    push_member(&mut m, "is_requester", jflag(p.is_requester));
    push_member(&mut m, "is_watcher", jflag(p.is_watcher));
    push_member(&mut m, "is_assign", jflag(p.is_assign));
    push_member(&mut m, "is_task", jflag(p.is_task));
    push_member(&mut m, "is_itemgroup", jflag(p.is_itemgroup));
    push_member(&mut m, "is_usergroup", jflag(p.is_usergroup));
    push_member(&mut m, "is_manager", jflag(p.is_manager));
    push_member(&mut m, "is_notify", jflag(p.is_notify));
    assert(view_members(m@) =~= group_base(*p));
    m
}

/// Creates a group.
pub fn create_group_call(p: &CreateGroupParams) -> (c: Call)
    ensures
        crate::call::call_view(c) == post_v("/Group"@, single("input"@, JsonV::Object(group_input(*p)))),
{
    let mut m = group_base_members(p);
    match &p.comment {
        Some(c) => push_member(&mut m, "comment", Json::Str(copy_string(c))),
        None => {},
    }
    match p.parent_group_id {
        Some(g) => push_member(&mut m, "groups_id", jint(g)),
        None => {},
    }
    assert(view_members(m@) =~= group_input(*p));
    post(owned("/Group"), input_of(Json::Object(m)))
}

/// The answer to a group's creation.
pub fn create_group_answer(p: &CreateGroupParams, r: Result<Json, GlpiError>) -> (out: Result<String, String>)
    ensures
        text_out_view(out) == created_spec(reply_view(r), "Group #"@, quoted_created(p.name@)),
{
    created_answer(r, "Group #", quoted_created_exec(&p.name))
}

pub struct UpdateGroupParams {
    pub group_id: i64,
    /// Fields to change, e.g. name, comment, groups_id (parent), is_assign, ...
    pub update_fields: Vec<(String, Json)>,
}

/// Starts a group's update. A rename that does not set the parent keeps the current one
/// (GLPI would reset it otherwise).
pub fn update_group_start(p: &UpdateGroupParams) -> (r: Step<KeepParentState, String>)
    ensures
        keep_parent_step_view(r) == keep_parent_start_spec(
            "/Group/"@ + int_text(p.group_id as int),
            "groups_id"@,
            "Group #"@ + int_text(p.group_id as int) + " updated."@,
            view_members(p.update_fields@),
        ),
        r matches Step::Call(st, _) && crate::tools::hierarchy::keep_parent_wf(st),
{
    keep_parent_start(path_id("/Group/", p.group_id), "groups_id", id_message("Group #", p.group_id, " updated."), &p.update_fields)
}

pub struct DeleteGroupParams {
    pub group_id: i64,
}

/// Deletes a group.
pub fn delete_group_call(p: &DeleteGroupParams) -> (c: Call)
    ensures
        crate::call::call_view(c) == delete_v("/Group/"@ + int_text(p.group_id as int)),
{
    delete(path_id("/Group/", p.group_id))
}

/// The answer to a group's deletion.
pub fn delete_group_answer(p: &DeleteGroupParams, r: Result<Json, GlpiError>) -> (out: Result<String, String>)
    ensures
        text_out_view(out) == text_answer_spec(reply_view(r), "Group #"@ + int_text(p.group_id as int) + " deleted."@),
{
    text_answer(r, id_message("Group #", p.group_id, " deleted."))
}

} // verus!
