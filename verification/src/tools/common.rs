//! Pieces shared by the tools: answers built from replies, and Markdown tables of rows.
use vstd::prelude::*;
use crate::error::{error_text, GlpiError};
use crate::json::{copy_string, jget, owned, view_items, view_members, Json, JsonV};
use crate::markdown::{id_field, id_field_spec, into_array, rows_view, strings_view, strs_view, table, table_spec};
use crate::text::{extend_str, int_text, push_int, string_of};

verus! {

broadcast use vstd::string::group_string_axioms;

/// A text answer: `msg` once the call succeeded, else the error's text.
pub open spec fn text_answer_spec(r: Result<JsonV, Seq<char>>, msg: Seq<char>) -> Result<Seq<char>, Seq<char>> {
    match r {
        Ok(_) => Ok(msg),
        Err(e) => Err(e),
    }
}

/// Answers `msg` when the call succeeded, else the error's text.
pub fn text_answer(r: Result<Json, GlpiError>, msg: String) -> (out: Result<String, String>)
    ensures
        crate::call::text_out_view(out) == text_answer_spec(crate::step::reply_view(r), msg@),
{
    match r {
        Ok(_) => Ok(msg),
        Err(e) => Err(e.message()),
    }
}

/// A creation's answer: `before`, the new item's id, then `after`.
pub open spec fn created_spec(r: Result<JsonV, Seq<char>>, before: Seq<char>, after: Seq<char>) -> Result<Seq<char>, Seq<char>> {
    match r {
        Ok(v) => Ok(before + id_field_spec(v, "id"@) + after),
        Err(e) => Err(e),
    }
}

/// Answers `before`, the id GLPI gave the new item, then `after`; or the error's text.
pub fn created_answer(r: Result<Json, GlpiError>, before: &str, after: String) -> (out: Result<String, String>)
    ensures
        crate::call::text_out_view(out) == created_spec(crate::step::reply_view(r), before@, after@),
{
    match r {
        Ok(v) => {
            let mut out: Vec<char> = Vec::new();
            extend_str(&mut out, before);
            let id = id_field(&v, "id");
            extend_str(&mut out, id.as_str());
            extend_str(&mut out, after.as_str());
            Ok(string_of(out.as_slice()))
        },
        Err(e) => Err(e.message()),
    }
}

/// The rows of a search reply (its `data` array; none when there is no such array).
pub open spec fn data_items(v: JsonV) -> Seq<JsonV> {
    match jget(v, "data"@) {
        Some(JsonV::Array(items)) => items,
        _ => Seq::empty(),
    }
}

/// The rows of a search reply.
pub fn data_rows(v: &Json) -> (r: Vec<Json>)
    ensures
        view_items(r@) == data_items(v@),
{
    match v.get("data") {
        Some(d) => into_array(d.deep_clone()),
        None => {
            let e: Vec<Json> = Vec::new();
            assert(view_items(e@) =~= Seq::<JsonV>::empty());
            e
        },
    }
}

/// Builds one row of cells per item, with `f`.
pub fn build_rows<F: Fn(&Json) -> Vec<String>>(items: &Vec<Json>, f: F) -> (r: Vec<Vec<String>>)
    requires
        forall|i: int| 0 <= i < items.len() ==> call_requires(f, (&items@[i],)),
    ensures
        r.len() == items.len(),
        forall|i: int| 0 <= i < items.len() ==> call_ensures(f, (&items@[i],), #[trigger] r@[i]),
{
    let mut r: Vec<Vec<String>> = Vec::new();
    let mut i: usize = 0;
    while i < items.len()
        invariant
            i <= items.len(),
            r.len() == i,
            forall|j: int| 0 <= j < items.len() ==> call_requires(f, (&items@[j],)),
            forall|j: int| 0 <= j < i ==> call_ensures(f, (&items@[j],), #[trigger] r@[j]),
        decreases items.len() - i,
    {
        let row = f(&items[i]);
        r.push(row);
        i = i + 1;
    }
    r
}

/// `**<count><noun>**` over a table.
pub open spec fn counted_table_spec(count: int, noun: Seq<char>, headers: Seq<Seq<char>>, rows: Seq<Seq<Seq<char>>>) -> Seq<char> {
    "**"@ + int_text(count) + noun + "**\n\n"@ + table_spec(headers, rows)
}

/// A count in bold (`**<count><noun>**`), a blank line, then the table.
pub fn counted_table(count: usize, noun: &str, headers: &[&str], rows: &Vec<Vec<String>>) -> (r: String)
    ensures
        r@ == counted_table_spec(count as int, noun@, strs_view(headers@), rows_view(rows@)),
{
    let mut out: Vec<char> = Vec::new();
    extend_str(&mut out, "**");
    push_int(&mut out, count as i128);
    extend_str(&mut out, noun);
    extend_str(&mut out, "**\n\n");
    let t = table(headers, rows.as_slice());
    extend_str(&mut out, t.as_str());
    string_of(out.as_slice())
}

/// A message built from a text, an id, and a text.
pub fn id_message(before: &str, id: i64, after: &str) -> (r: String)
    ensures
        r@ == before@ + int_text(id as int) + after@,
{
    let mut out: Vec<char> = Vec::new();
    extend_str(&mut out, before);
    push_int(&mut out, id as i128);
    extend_str(&mut out, after);
    string_of(out.as_slice())
}

/// `yes` or `no`.
pub open spec fn yes_no(b: bool) -> Seq<char> {
    if b { "yes"@ } else { "no"@ }
}

pub fn yes_no_exec(b: bool) -> (r: String)
    ensures
        r@ == yes_no(b),
{
    if b { owned("yes") } else { owned("no") }
}

/// The value at `key`, or `default` when there is none.
pub open spec fn get_or(v: JsonV, key: Seq<char>, default: JsonV) -> JsonV {
    match jget(v, key) {
        Some(x) => x,
        None => default,
    }
}

/// The value at `key`, or `default`.
pub fn get_or_exec(v: &Json, key: &str, default: Json) -> (r: Json)
    ensures
        r@ == get_or(v@, key@, default@),
{
    match v.get(key) {
        Some(x) => x.deep_clone(),
        None => default,
    }
}

pub fn copy_members(m: &Vec<(String, Json)>) -> (r: Vec<(String, Json)>)
    ensures
        view_members(r@) == view_members(m@),
{
    let mut out: Vec<(String, Json)> = Vec::new();
    let mut i: usize = 0;
    while i < m.len()
        invariant
            i <= m.len(),
            view_members(out@) == view_members(m@.take(i as int)),
        decreases m.len() - i,
    {
        let k = copy_string(&m[i].0);
        let v = m[i].1.deep_clone();
        proof {
            crate::json::lemma_view_members_push(out@, (k, v));
            crate::json::lemma_view_members_take(m@, i as int);
        }
        out.push((k, v));
        i = i + 1;
    }
    assert(m@.take(m.len() as int) =~= m@);
    out
}

/// The map of an answer over its success.
pub open spec fn map_ok(r: Result<JsonV, Seq<char>>, f: spec_fn(JsonV) -> Seq<char>) -> Result<Seq<char>, Seq<char>> {
    match r {
        Ok(v) => Ok(f(v)),
        Err(e) => Err(e),
    }
}

/// `"<name>" created.`
pub open spec fn quoted_created(name: Seq<char>) -> Seq<char> {
    " \""@ + name + "\" created."@
}

pub fn quoted_created_exec(name: &String) -> (r: String)
    ensures
        r@ == quoted_created(name@),
{
    let mut out: Vec<char> = Vec::new();
    extend_str(&mut out, " \"");
    extend_str(&mut out, name.as_str());
    extend_str(&mut out, "\" created.");
    string_of(out.as_slice())
}

} // verus!
