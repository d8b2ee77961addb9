//! Solutions of tickets.
use vstd::prelude::*;
use crate::call::{get, get_v, input_of, jint, path_id, path_id_suffix, post, post_v, push_member, single, text_out_view, Call};
use crate::error::GlpiError;
use crate::json::{copy_string, owned, view_items, view_members, Json, JsonV};
use crate::markdown::{array_items, into_array, join, str_field, str_field_spec, strings_view, strip_html, push_joined_strings};
use crate::html::strip_html_spec;
use crate::step::reply_view;
use crate::text::{extend_str, int_text, string_of};
use crate::tools::common::{id_message, map_ok, text_answer, text_answer_spec};

verus! {

broadcast use vstd::string::group_string_axioms;

/// A solution as Markdown: its date in bold, then its content without HTML.
pub open spec fn render_solution_spec(s: JsonV) -> Seq<char> {
    "**"@ + str_field_spec(s, "date_creation"@) + "**\n\n"@ + strip_html_spec(str_field_spec(s, "content"@))
}

/// Renders a solution.
pub fn render_solution(s: &Json) -> (r: String)
    ensures
        r@ == render_solution_spec(s@),
{
    let mut out: Vec<char> = Vec::new();
    extend_str(&mut out, "**");
    extend_str(&mut out, str_field(s, "date_creation").as_str());
    extend_str(&mut out, "**\n\n");
    extend_str(&mut out, strip_html(str_field(s, "content").as_str()).as_str());
    string_of(out.as_slice())
}

pub struct GetSolutionParams {
    pub ticket_id: i64,
}

/// Reads the solutions of a ticket.
pub fn get_solution_call(p: &GetSolutionParams) -> (c: Call)
    ensures
        crate::call::call_view(c) == get_v("/Ticket/"@ + int_text(p.ticket_id as int) + "/ITILSolution"@),
{
    get(path_id_suffix("/Ticket/", p.ticket_id, "/ITILSolution"))
}

/// The solutions, rendered and separated by rules; a note when there is none.
pub open spec fn solutions_text(v: JsonV) -> Seq<char> {
    let items = array_items(v);
    if items.len() == 0 {
        "No solution recorded for this ticket."@
    } else {
        join(items.map_values(|s: JsonV| render_solution_spec(s)), "\n\n---\n\n"@)
    }
}

/// Renders each item with `render`, and joins the results with rules.
pub(crate) fn render_joined<F: Fn(&Json) -> String>(items: &Vec<Json>, render: F, f: Ghost<spec_fn(JsonV) -> Seq<char>>) -> (r: String)
    requires
        forall|i: int| 0 <= i < items.len() ==> call_requires(render, (&items@[i],)),
        forall|x: &Json, s: String| call_ensures(render, (x,), s) ==> s@ == f@(x@),
    ensures
        r@ == join(view_items(items@).map_values(|x: JsonV| f@(x)), "\n\n---\n\n"@),
{
    let mut parts: Vec<String> = Vec::new();
    let mut i: usize = 0;
    while i < items.len()
        invariant
            i <= items.len(),
            forall|k: int| 0 <= k < items.len() ==> call_requires(render, (&items@[k],)),
            forall|x: &Json, s: String| call_ensures(render, (x,), s) ==> s@ == f@(x@),
            strings_view(parts@) == view_items(items@).take(i as int).map_values(|x: JsonV| f@(x)),
        decreases items.len() - i,
    {
        let s = render(&items[i]);
        let ghost old_parts = parts@;
        parts.push(s);
        assert(strings_view(parts@) =~= strings_view(old_parts).push(s@));
        i = i + 1;
        assert(strings_view(parts@) =~= view_items(items@).take(i as int).map_values(|x: JsonV| f@(x)));
    }
    assert(view_items(items@).take(items.len() as int) =~= view_items(items@));
    let mut out: Vec<char> = Vec::new();
    push_joined_strings(&mut out, parts.as_slice(), "\n\n---\n\n");
    assert(out@ =~= join(strings_view(parts@), "\n\n---\n\n"@));
    string_of(out.as_slice())
}

/// The answer showing a ticket's solutions.
pub fn get_solution_answer(r: Result<Json, GlpiError>) -> (out: Result<String, String>)
    ensures
        text_out_view(out) == map_ok(reply_view(r), |v: JsonV| solutions_text(v)),
{
    let v = match r {
        Ok(v) => v,
        Err(e) => return Err(e.message()),
    };
    let ghost vv = v@;
    let items = into_array(v);
    if items.len() == 0 {
        return Ok(owned("No solution recorded for this ticket."));
    }
    let ghost f = |s: JsonV| render_solution_spec(s);
    let text = render_joined(&items, render_solution, Ghost(f));
    assert(view_items(items@).map_values(|x: JsonV| f(x)) =~= array_items(vv).map_values(|s: JsonV| render_solution_spec(s)));
    assert(text@ == solutions_text(vv));
    Ok(text)
}

pub struct AddSolutionParams {
    pub ticket_id: i64,
    pub content: String,
    pub solution_type_id: Option<i64>,
}

/// The fields of a new solution: the ticket, its type name and the content, then the
/// solution type when given.
pub open spec fn solution_input(p: AddSolutionParams) -> Seq<(Seq<char>, JsonV)> {
    let base = seq![
        ("items_id"@, JsonV::Int(p.ticket_id as int)),
        ("itemtype"@, JsonV::Str("Ticket"@)),
        ("content"@, JsonV::Str(p.content@)),
    ];
    match p.solution_type_id {
        Some(t) => base.push(("solutiontypes_id"@, JsonV::Int(t as int))),
        None => base,
    }
}

/// Posts a solution on a ticket.
pub fn add_solution_call(p: &AddSolutionParams) -> (c: Call)
    ensures
        crate::call::call_view(c) == post_v("/ITILSolution"@, single("input"@, JsonV::Object(solution_input(*p)))),
{
    let mut m: Vec<(String, Json)> = Vec::new();
    push_member(&mut m, "items_id", jint(p.ticket_id));
    push_member(&mut m, "itemtype", Json::Str(owned("Ticket")));
    push_member(&mut m, "content", Json::Str(copy_string(&p.content)));
    match p.solution_type_id {
        Some(t) => push_member(&mut m, "solutiontypes_id", jint(t)),
        None => {},
    }
    assert(view_members(m@) =~= solution_input(*p));
    post(owned("/ITILSolution"), input_of(Json::Object(m)))
}

/// The answer to a solution's posting.
pub fn add_solution_answer(p: &AddSolutionParams, r: Result<Json, GlpiError>) -> (out: Result<String, String>)
    ensures
        text_out_view(out) == text_answer_spec(reply_view(r), "Solution added to ticket #"@ + int_text(p.ticket_id as int) + "."@),
{
    text_answer(r, id_message("Solution added to ticket #", p.ticket_id, "."))
}

} // verus!
