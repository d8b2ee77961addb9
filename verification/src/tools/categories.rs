//! ITIL categories.
use vstd::prelude::*;
use crate::call::{
    delete, delete_v, get, get_query, get_v, input_of, jint, path_id, post, post_v, push_member, single,
    text_out_view, Call, CallV,
};
use crate::error::GlpiError;
use crate::json::{copy_string, owned, view_items, view_members, Json, JsonV};
use crate::markdown::{array_items, escape_cell, escape_cell_spec, id_field, id_field_spec, into_array, rows_view, strings_view, strs_view};
use crate::step::{reply_view, Step};
use crate::text::int_text;
use crate::tools::common::{
    build_rows, counted_table, counted_table_spec, created_answer, created_spec, id_message, map_ok, quoted_created,
    quoted_created_exec, text_answer, text_answer_spec,
};
use crate::tools::hierarchy::{keep_parent_start, keep_parent_start_spec, keep_parent_step_view, tree_name, tree_name_exec, KeepParentState};
use crate::tools::profiles::{find_by_name_query, find_by_name_v, found_answer, found_text};

verus! {

broadcast use vstd::string::group_string_axioms;

/// Lists the ITIL categories.
pub fn list_itil_categories_call() -> (c: Call)
    ensures
        crate::call::call_view(c) == get_v("/ITILCategory"@),
{
    get(owned("/ITILCategory"))
}

/// A category's row: id and full name.
pub open spec fn category_row(c: JsonV) -> Seq<Seq<char>> {
    seq![id_field_spec(c, "id"@), escape_cell_spec(tree_name(c))]
}

fn category_row_exec(c: &Json) -> (r: Vec<String>)
    ensures
        strings_view(r@) == category_row(c@),
{
    let mut r: Vec<String> = Vec::new();
    r.push(id_field(c, "id"));
    r.push(escape_cell(tree_name_exec(c).as_str()));
    assert(strings_view(r@) =~= category_row(c@));
    r
}

/// The table of the categories.
pub open spec fn categories_text(v: JsonV) -> Seq<char> {
    let items = array_items(v);
    if items.len() == 0 {
        "No categories."@
    } else {
        counted_table_spec(items.len() as int, " categorie(s)"@, seq!["ID"@, "Name"@], items.map_values(|c: JsonV| category_row(c)))
    }
}

/// The answer listing the categories.
pub fn list_itil_categories_answer(r: Result<Json, GlpiError>) -> (out: Result<String, String>)
    ensures
        text_out_view(out) == map_ok(reply_view(r), |v: JsonV| categories_text(v)),
{
    let v = match r {
        Ok(v) => v,
        Err(e) => return Err(e.message()),
    };
    let items = into_array(v);
    if items.len() == 0 {
        return Ok(owned("No categories."));
    }
    let rows = build_rows(&items, category_row_exec);
    let headers = ["ID", "Name"];
    proof {
        assert(rows_view(rows@) =~= view_items(items@).map_values(|c: JsonV| category_row(c)));
        assert(strs_view(headers@) =~= seq!["ID"@, "Name"@]);
    }
    Ok(counted_table(items.len(), " categorie(s)", &headers, &rows))
}

pub struct FindItilCategoryParams {
    /// Name to search for (case-insensitive, partial match).
    pub name: String,
}

/// Searches the categories by name (search field 14).
pub fn find_itil_category_call(p: &FindItilCategoryParams) -> (c: Call)
    ensures
        crate::call::call_view(c) == find_by_name_v("/search/ITILCategory"@, "14"@, p.name@),
{
    get_query(owned("/search/ITILCategory"), find_by_name_query("14", &p.name))
}

/// The answer to a category search.
pub fn find_itil_category_answer(r: Result<Json, GlpiError>) -> (out: Result<String, String>)
    ensures
        text_out_view(out) == map_ok(reply_view(r), |v: JsonV| found_text(v, "No matching categories."@, " categorie(s) found"@)),
{
    found_answer(r, "No matching categories.", " categorie(s) found")
}

pub struct CreateItilCategoryParams {
    pub name: String,
    pub comment: Option<String>,
    /// Parent category ID for the tree hierarchy; omit for a root category.
    pub parent_category_id: Option<i64>,
    /// Owning entity ID (0 = root entity).
    pub entities_id: i64,
}

/// The fields of a new category: name and entity, then the comment and the parent when given.
pub open spec fn category_input(p: CreateItilCategoryParams) -> Seq<(Seq<char>, JsonV)> {
    let base = seq![("name"@, JsonV::Str(p.name@)), ("entities_id"@, JsonV::Int(p.entities_id as int))];
    let with_comment = match p.comment {
        Some(c) => base.push(("comment"@, JsonV::Str(c@))),
        None => base,
    };
    match p.parent_category_id {
        Some(g) => with_comment.push(("itilcategories_id"@, JsonV::Int(g as int))),
        None => with_comment,
    }
}

/// Creates a category.
pub fn create_itil_category_call(p: &CreateItilCategoryParams) -> (c: Call)
    ensures
        crate::call::call_view(c) == post_v("/ITILCategory"@, single("input"@, JsonV::Object(category_input(*p)))),
{
    let mut m: Vec<(String, Json)> = Vec::new();
    push_member(&mut m, "name", Json::Str(copy_string(&p.name)));
    push_member(&mut m, "entities_id", jint(p.entities_id));
    match &p.comment {
        Some(c) => push_member(&mut m, "comment", Json::Str(copy_string(c))),
        None => {},
    }
    match p.parent_category_id {
        Some(g) => push_member(&mut m, "itilcategories_id", jint(g)),
        None => {},
    }
    assert(view_members(m@) =~= category_input(*p));
    post(owned("/ITILCategory"), input_of(Json::Object(m)))
}

/// The answer to a category's creation.
pub fn create_itil_category_answer(p: &CreateItilCategoryParams, r: Result<Json, GlpiError>) -> (out: Result<String, String>)
    ensures
        text_out_view(out) == created_spec(reply_view(r), "ITIL category #"@, quoted_created(p.name@)),
{
    created_answer(r, "ITIL category #", quoted_created_exec(&p.name))
}

pub struct UpdateItilCategoryParams {
    pub category_id: i64,
    /// Fields to change, e.g. name, comment, itilcategories_id (parent), ...
    pub update_fields: Vec<(String, Json)>,
}

/// Starts a category's update; a rename that does not set the parent keeps the current one.
pub fn update_itil_category_start(p: &UpdateItilCategoryParams) -> (r: Step<KeepParentState, String>)
    ensures
        keep_parent_step_view(r) == keep_parent_start_spec(
            "/ITILCategory/"@ + int_text(p.category_id as int),
            "itilcategories_id"@,
            "ITIL category #"@ + int_text(p.category_id as int) + " updated."@,
            view_members(p.update_fields@),
        ),
        r matches Step::Call(st, _) && crate::tools::hierarchy::keep_parent_wf(st),
{
    keep_parent_start(
        path_id("/ITILCategory/", p.category_id),
        "itilcategories_id",
        id_message("ITIL category #", p.category_id, " updated."),
        &p.update_fields,
    )
}

pub struct DeleteItilCategoryParams {
    pub category_id: i64,
}

/// Deletes a category.
pub fn delete_itil_category_call(p: &DeleteItilCategoryParams) -> (c: Call)
    ensures
        crate::call::call_view(c) == delete_v("/ITILCategory/"@ + int_text(p.category_id as int)),
{
    delete(path_id("/ITILCategory/", p.category_id))
}

/// The answer to a category's deletion.
pub fn delete_itil_category_answer(p: &DeleteItilCategoryParams, r: Result<Json, GlpiError>) -> (out: Result<String, String>)
    ensures
        text_out_view(out) == text_answer_spec(reply_view(r), "ITIL category #"@ + int_text(p.category_id as int) + " deleted."@),
{
    text_answer(r, id_message("ITIL category #", p.category_id, " deleted."))
}

} // verus!
