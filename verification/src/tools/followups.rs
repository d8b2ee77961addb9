//! Followups of tickets.
use vstd::prelude::*;
use crate::call::{flag, get, get_v, input_of, jflag, jint, path_id, path_id_suffix, post, post_v, push_member, single, text_out_view, Call};
use crate::error::GlpiError;
use crate::json::{copy_string, jget_i64, owned, view_items, view_members, Json, JsonV};
use crate::markdown::{array_items, id_field, id_field_spec, into_array, join, str_field, str_field_spec, strip_html};
use crate::html::strip_html_spec;
use crate::step::reply_view;
use crate::text::{extend_str, int_text, push_int, string_of};
use crate::tools::common::{created_answer, created_spec, map_ok};
use crate::tools::solutions::render_joined;

verus! {

broadcast use vstd::string::group_string_axioms;

/// A followup as Markdown: id, date and whether it is private in bold, then its content
/// without HTML.
pub open spec fn render_followup_spec(f: JsonV) -> Seq<char> {
    let private = jget_i64(f, "is_private"@) == Some(1int);
    "**#"@ + id_field_spec(f, "id"@) + " — "@ + str_field_spec(f, "date"@) + (if private { " (private)"@ } else { ""@ })
        + "**\n\n"@ + strip_html_spec(str_field_spec(f, "content"@))
}

/// Renders a followup.
pub fn render_followup(f: &Json) -> (r: String)
    ensures
        r@ == render_followup_spec(f@),
{
    let private = match f.get_i64("is_private") {
        Some(n) => n == 1,
        None => false,
    };
    let mut out: Vec<char> = Vec::new();
    extend_str(&mut out, "**#");
    extend_str(&mut out, id_field(f, "id").as_str());
    extend_str(&mut out, " — ");
    extend_str(&mut out, str_field(f, "date").as_str());
    if private {
        extend_str(&mut out, " (private)");
    } else {
        extend_str(&mut out, "");
    }
    extend_str(&mut out, "**\n\n");
    extend_str(&mut out, strip_html(str_field(f, "content").as_str()).as_str());
    string_of(out.as_slice())
}

/// The followups: how many there are in bold, then each rendered, separated by rules; a
/// note when there is none.
pub open spec fn followups_text(items: Seq<JsonV>) -> Seq<char> {
    if items.len() == 0 {
        "No followups."@
    } else {
        "**"@ + int_text(items.len() as int) + " followup(s)**\n\n"@
            + join(items.map_values(|f: JsonV| render_followup_spec(f)), "\n\n---\n\n"@)
    }
}

/// Renders a list of followups.
pub fn render_followups_list(items: &Vec<Json>) -> (r: String)
    ensures
        r@ == followups_text(view_items(items@)),
{
    if items.len() == 0 {
        return owned("No followups.");
    }
    let ghost f = |x: JsonV| render_followup_spec(x);
    let blocks = render_joined(items, render_followup, Ghost(f));
    assert(view_items(items@).map_values(|x: JsonV| f(x)) =~= view_items(items@).map_values(|x: JsonV| render_followup_spec(x)));
    let mut out: Vec<char> = Vec::new();
    extend_str(&mut out, "**");
    push_int(&mut out, items.len() as i128);
    extend_str(&mut out, " followup(s)**\n\n");
    extend_str(&mut out, blocks.as_str());
    string_of(out.as_slice())
}

pub struct ListFollowupsParams {
    pub ticket_id: i64,
}

/// Reads the followups of a ticket.
pub fn list_followups_call(p: &ListFollowupsParams) -> (c: Call)
    ensures
        crate::call::call_view(c) == get_v("/Ticket/"@ + int_text(p.ticket_id as int) + "/ITILFollowup"@),
{
    get(path_id_suffix("/Ticket/", p.ticket_id, "/ITILFollowup"))
}

/// The answer listing a ticket's followups.
pub fn list_followups_answer(r: Result<Json, GlpiError>) -> (out: Result<String, String>)
    ensures
        text_out_view(out) == map_ok(reply_view(r), |v: JsonV| followups_text(array_items(v))),
{
    match r {
        Ok(v) => Ok(render_followups_list(&into_array(v))),
        Err(e) => Err(e.message()),
    }
}

pub struct AddFollowupParams {
    pub ticket_id: i64,
    pub content: String,
    /// True for a followup visible to technicians only.
    pub is_private: bool,
}

/// The fields of a new followup.
pub open spec fn followup_input(p: AddFollowupParams) -> Seq<(Seq<char>, JsonV)> {
    seq![
        ("items_id"@, JsonV::Int(p.ticket_id as int)),
        ("itemtype"@, JsonV::Str("Ticket"@)),
        ("content"@, JsonV::Str(p.content@)),
        ("is_private"@, flag(p.is_private)),
    ]
}

/// Adds a followup to a ticket.
pub fn add_followup_call(p: &AddFollowupParams) -> (c: Call)
    ensures
        crate::call::call_view(c) == post_v("/ITILFollowup"@, single("input"@, JsonV::Object(followup_input(*p)))),
{
    let mut m: Vec<(String, Json)> = Vec::new();
    push_member(&mut m, "items_id", jint(p.ticket_id));
    push_member(&mut m, "itemtype", Json::Str(owned("Ticket")));
    push_member(&mut m, "content", Json::Str(copy_string(&p.content)));
    push_member(&mut m, "is_private", jflag(p.is_private));
    assert(view_members(m@) =~= followup_input(*p));
    post(owned("/ITILFollowup"), input_of(Json::Object(m)))
}

/// The answer to a followup's addition: `Followup #<id> added to ticket #<ticket>.`
pub fn add_followup_answer(p: &AddFollowupParams, r: Result<Json, GlpiError>) -> (out: Result<String, String>)
    ensures
        text_out_view(out) == created_spec(reply_view(r), "Followup #"@, " added to ticket #"@ + int_text(p.ticket_id as int) + "."@),
{
    created_answer(r, "Followup #", crate::tools::common::id_message(" added to ticket #", p.ticket_id, "."))
}

pub struct GetFollowupParams {
    pub followup_id: i64,
}

/// Reads one followup.
pub fn get_followup_call(p: &GetFollowupParams) -> (c: Call)
    ensures
        crate::call::call_view(c) == get_v("/ITILFollowup/"@ + int_text(p.followup_id as int)),
{
    get(path_id("/ITILFollowup/", p.followup_id))
}

/// The answer showing a followup.
pub fn get_followup_answer(r: Result<Json, GlpiError>) -> (out: Result<String, String>)
    ensures
        text_out_view(out) == map_ok(reply_view(r), |v: JsonV| render_followup_spec(v)),
{
    match r {
        Ok(v) => Ok(render_followup(&v)),
        Err(e) => Err(e.message()),
    }
}

} // verus!
