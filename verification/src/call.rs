//! The calls a tool asks the GLPI client to make, and the helpers that build them.
use vstd::prelude::*;
use crate::error::{error_text, GlpiError};
use crate::json::{lemma_view_members_push, owned, view_members, Json, JsonV};
use crate::text::{extend_str, int_text, push_int, string_of};

verus! {

broadcast use vstd::string::group_string_axioms;

/// The HTTP method of a call.
#[derive(Debug, Clone, Copy, PartialEq, Eq, Structural)]
pub enum Method {
    Get,
    Post,
    Put,
    Delete,
}

/// One call to the GLPI REST API: method, endpoint (below the API prefix), query
/// parameters and JSON body.
#[derive(Debug, PartialEq)]
pub struct Call {
    pub method: Method,
    pub endpoint: String,
    pub query: Option<Vec<(String, String)>>,
    pub body: Option<Json>,
}

/// The mathematical form of a call.
pub struct CallV {
    pub method: Method,
    pub endpoint: Seq<char>,
    pub query: Option<Seq<(Seq<char>, Seq<char>)>>,
    pub body: Option<JsonV>,
}

/// The views of query parameters.
pub open spec fn pairs_view(q: Seq<(String, String)>) -> Seq<(Seq<char>, Seq<char>)> {
    q.map_values(|p: (String, String)| (p.0@, p.1@))
}

pub open spec fn call_view(c: Call) -> CallV {
    CallV {
        method: c.method,
        endpoint: c.endpoint@,
        query: match c.query {
            Some(q) => Some(pairs_view(q@)),
            None => None,
        },
        body: match c.body {
            Some(b) => Some(b@),
            None => None,
        },
    }
}

/// A GET without query parameters.
pub open spec fn get_v(endpoint: Seq<char>) -> CallV {
    CallV { method: Method::Get, endpoint, query: None, body: None }
}

/// A GET with query parameters.
pub open spec fn get_q_v(endpoint: Seq<char>, q: Seq<(Seq<char>, Seq<char>)>) -> CallV {
    CallV { method: Method::Get, endpoint, query: Some(q), body: None }
}

/// A POST of `body`.
pub open spec fn post_v(endpoint: Seq<char>, body: JsonV) -> CallV {
    CallV { method: Method::Post, endpoint, query: None, body: Some(body) }
}

/// A PUT of `body`.
pub open spec fn put_v(endpoint: Seq<char>, body: JsonV) -> CallV {
    CallV { method: Method::Put, endpoint, query: None, body: Some(body) }
}

/// A DELETE.
pub open spec fn delete_v(endpoint: Seq<char>) -> CallV {
    CallV { method: Method::Delete, endpoint, query: None, body: None }
}

/// A GET of `endpoint`.
pub fn get(endpoint: String) -> (c: Call)
    ensures
        call_view(c) == get_v(endpoint@),
{
    Call { method: Method::Get, endpoint, query: None, body: None }
}

/// A GET of `endpoint` with query parameters.
pub fn get_query(endpoint: String, query: Vec<(String, String)>) -> (c: Call)
    ensures
        call_view(c) == get_q_v(endpoint@, pairs_view(query@)),
{
    Call { method: Method::Get, endpoint, query: Some(query), body: None }
}

/// A POST of `body` to `endpoint`.
pub fn post(endpoint: String, body: Json) -> (c: Call)
    ensures
        call_view(c) == post_v(endpoint@, body@),
{
    Call { method: Method::Post, endpoint, query: None, body: Some(body) }
}

/// A PUT of `body` to `endpoint`.
pub fn put(endpoint: String, body: Json) -> (c: Call)
    ensures
        call_view(c) == put_v(endpoint@, body@),
{
    Call { method: Method::Put, endpoint, query: None, body: Some(body) }
}

/// A DELETE of `endpoint`.
pub fn delete(endpoint: String) -> (c: Call)
    ensures
        call_view(c) == delete_v(endpoint@),
{
    Call { method: Method::Delete, endpoint, query: None, body: None }
}

/// `prefix` followed by the decimal `id`.
pub fn path_id(prefix: &str, id: i64) -> (r: String)
    ensures
        r@ == prefix@ + int_text(id as int),
{
    let mut out: Vec<char> = Vec::new();
    extend_str(&mut out, prefix);
    push_int(&mut out, id as i128);
    string_of(out.as_slice())
}

/// `prefix`, the decimal `id`, then `suffix`.
pub fn path_id_suffix(prefix: &str, id: i64, suffix: &str) -> (r: String)
    ensures
        r@ == prefix@ + int_text(id as int) + suffix@,
{
    let mut out: Vec<char> = Vec::new();
    extend_str(&mut out, prefix);
    push_int(&mut out, id as i128);
    extend_str(&mut out, suffix);
    string_of(out.as_slice())
}

/// `prefix`, then `id`, then `suffix`.
pub fn path_text(prefix: &str, id: &str, suffix: &str) -> (r: String)
    ensures
        r@ == prefix@ + id@ + suffix@,
{
    let mut out: Vec<char> = Vec::new();
    extend_str(&mut out, prefix);
    extend_str(&mut out, id);
    extend_str(&mut out, suffix);
    string_of(out.as_slice())
}

/// A string value.
pub fn jtext(s: &str) -> (r: Json)
    ensures
        r@ == JsonV::Str(s@),
{
    Json::Str(owned(s))
}

/// An integer value.
pub fn jint(n: i64) -> (r: Json)
    ensures
        r@ == JsonV::Int(n as int),
{
    Json::Int(n as i128)
}

/// `1` for true and `0` for false, as GLPI wants its flags.
pub open spec fn flag(b: bool) -> JsonV {
    JsonV::Int(if b { 1 } else { 0 })
}

/// A flag as `0` or `1`.
pub fn jflag(b: bool) -> (r: Json)
    ensures
        r@ == flag(b),
{
    Json::Int(if b { 1 } else { 0 })
}

/// Appends the member `key: value`.
pub fn push_member(m: &mut Vec<(String, Json)>, key: &str, value: Json)
    ensures
        view_members(final(m)@) == view_members(old(m)@).push((key@, value@)),
{
    let k = owned(key);
    proof {
        lemma_view_members_push(m@, (k, value));
    }
    m.push((k, value));
}

/// An object with the single member `key: value`.
pub open spec fn single(key: Seq<char>, value: JsonV) -> JsonV {
    JsonV::Object(seq![(key, value)])
}

/// `{"input": input}`, the envelope of GLPI's write calls.
pub fn input_of(input: Json) -> (r: Json)
    ensures
        r@ == single("input"@, input@),
{
    let mut m: Vec<(String, Json)> = Vec::new();
    push_member(&mut m, "input", input);
    assert(view_members(m@) =~= seq![("input"@, input@)]);
    Json::Object(m)
}

/// A query parameter.
pub fn param(key: &str, value: String) -> (r: (String, String))
    ensures
        r.0@ == key@,
        r.1@ == value@,
{
    (owned(key), value)
}

/// Appends a query parameter.
pub fn push_param(q: &mut Vec<(String, String)>, key: &str, value: String)
    ensures
        pairs_view(final(q)@) == pairs_view(old(q)@).push((key@, value@)),
{
    let p = param(key, value);
    q.push(p);
    assert(pairs_view(q@) =~= pairs_view(old(q)@).push((key@, value@)));
}

/// The error text a tool reports.
pub open spec fn err_view<T>(r: Result<T, GlpiError>) -> Seq<char> {
    match r {
        Err(e) => error_text(e),
        Ok(_) => Seq::empty(),
    }
}

/// A tool's JSON answer: the value, or the error's text.
pub open spec fn json_answer(r: Result<Json, GlpiError>) -> Result<JsonV, Seq<char>> {
    match r {
        Ok(v) => Ok(v@),
        Err(e) => Err(error_text(e)),
    }
}

/// The mathematical form of a JSON answer.
pub open spec fn json_out_view(r: Result<Json, String>) -> Result<JsonV, Seq<char>> {
    match r {
        Ok(v) => Ok(v@),
        Err(e) => Err(e@),
    }
}

/// The mathematical form of a text answer.
pub open spec fn text_out_view(r: Result<String, String>) -> Result<Seq<char>, Seq<char>> {
    match r {
        Ok(v) => Ok(v@),
        Err(e) => Err(e@),
    }
}

/// Passes a JSON result on, turning an error into its text.
pub fn answer_json(r: Result<Json, GlpiError>) -> (out: Result<Json, String>)
    ensures
        json_out_view(out) == json_answer(r),
{
    match r {
        Ok(v) => Ok(v),
        Err(e) => Err(e.message()),
    }
}

/// The decimal text of an `i64`.
pub fn i64_string(n: i64) -> (s: String)
    ensures
        s@ == int_text(n as int),
{
    crate::text::int_string(n as i128)
}

} // verus!
