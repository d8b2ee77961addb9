//! Pieces shared by the tools on tree-shaped items (groups, categories): their shown name,
//! and an update that keeps an item under its parent when it is renamed.
use vstd::prelude::*;
use crate::call::{get, get_v, input_of, put, put_v, single, Call, CallV};
use crate::error::GlpiError;
use crate::json::{copy_string, jget, jstr, member, member_insert, owned, view_members, Json, JsonV};
use crate::step::{reply_view, Step, StepV};
use crate::tools::common::copy_members;

verus! {

broadcast use vstd::string::group_string_axioms;

/// The text of a string value, or empty for any other value.
pub open spec fn str_or_empty(v: JsonV) -> Seq<char> {
    match jstr(v) {
        Some(s) => s,
        None => Seq::empty(),
    }
}

/// A tree item's shown name: its complete name (path) when it has that member, else its
/// name, as text (empty when the member is not a string).
pub open spec fn tree_name(v: JsonV) -> Seq<char> {
    match jget(v, "completename"@) {
        Some(x) => str_or_empty(x),
        None => match jget(v, "name"@) {
            Some(x) => str_or_empty(x),
            None => Seq::empty(),
        },
    }
}

/// A tree item's shown name.
pub fn tree_name_exec(v: &Json) -> (r: String)
    ensures
        r@ == tree_name(v@),
{
    let x = match v.get("completename") {
        Some(x) => Some(x),
        None => v.get("name"),
    };
    match x {
        Some(x) => match x.as_str() {
            Some(s) => copy_string(s),
            None => String::new(),
        },
        None => String::new(),
    }
}

/// Where an update that keeps the parent stands: the item's path, the parent's member name,
/// the message of success, the fields to write, and whether they are being written.
pub struct KeepParentState {
    pub path: String,
    pub parent_key: String,
    pub done_text: String,
    pub input: Json,
    pub writing: bool,
}

pub struct KeepParentStateV {
    pub path: Seq<char>,
    pub parent_key: Seq<char>,
    pub done_text: Seq<char>,
    pub input: Seq<(Seq<char>, JsonV)>,
    pub writing: bool,
}

pub open spec fn keep_parent_view(s: KeepParentState) -> KeepParentStateV {
    KeepParentStateV {
        path: s.path@,
        parent_key: s.parent_key@,
        done_text: s.done_text@,
        input: match s.input@ {
            JsonV::Object(m) => m,
            _ => Seq::empty(),
        },
        writing: s.writing,
    }
}

pub open spec fn keep_parent_step_view(s: Step<KeepParentState, String>) -> StepV<KeepParentStateV, Seq<char>> {
    match s {
        Step::Call(st, c) => StepV::Call(keep_parent_view(st), crate::call::call_view(c)),
        Step::Done(Ok(t)) => StepV::Done(Ok(t@)),
        Step::Done(Err(e)) => StepV::Done(Err(e@)),
    }
}

/// The state's fields are an object.
pub open spec fn keep_parent_wf(s: KeepParentState) -> bool {
    s.input@ is Object
}

/// The write of `fields` to `path`.
pub open spec fn write_v(path: Seq<char>, fields: Seq<(Seq<char>, JsonV)>) -> CallV {
    put_v(path, single("input"@, JsonV::Object(fields)))
}

/// The first step: a rename that does not set the parent first reads the item (GLPI would
/// reset the parent otherwise); any other update writes the fields at once.
pub open spec fn keep_parent_start_spec(path: Seq<char>, parent_key: Seq<char>, done_text: Seq<char>, fields: Seq<(Seq<char>, JsonV)>) -> StepV<KeepParentStateV, Seq<char>> {
    let s = KeepParentStateV { path, parent_key, done_text, input: fields, writing: false };
    if member(fields, "name"@) is Some && member(fields, parent_key) is None {
        StepV::Call(s, get_v(path))
    } else {
        StepV::Call(KeepParentStateV { writing: true, ..s }, write_v(path, fields))
    }
}

/// The step after a reply: the item read gives its current parent to the fields (when it
/// has one), which are then written; the write done, the update ends with its message.
pub open spec fn keep_parent_next_spec(s: KeepParentStateV, reply: Result<JsonV, Seq<char>>) -> StepV<KeepParentStateV, Seq<char>> {
    match reply {
        Err(e) => StepV::Done(Err(e)),
        Ok(v) => if s.writing {
            StepV::Done(Ok(s.done_text))
        } else {
            let fields = match jget(v, s.parent_key) {
                Some(p) => member_insert(s.input, s.parent_key, p),
                None => s.input,
            };
            StepV::Call(KeepParentStateV { input: fields, writing: true, ..s }, write_v(s.path, fields))
        },
    }
}

fn write_call(path: &String, input: &Json) -> (c: Call)
    requires
        input@ is Object,
    ensures
        crate::call::call_view(c) == write_v(path@, input@->Object_0),
{
    put(copy_string(path), input_of(input.deep_clone()))
}

/// Starts an update of the item at `path` with `fields`, keeping its parent (`parent_key`)
/// on a rename; `done_text` is the message of success.
pub fn keep_parent_start(path: String, parent_key: &str, done_text: String, fields: &Vec<(String, Json)>) -> (r: Step<KeepParentState, String>)
    ensures
        keep_parent_step_view(r) == keep_parent_start_spec(path@, parent_key@, done_text@, view_members(fields@)),
        r matches Step::Call(st, _) && keep_parent_wf(st),
{
    let input = Json::Object(copy_members(fields));
    let renames = input.get("name").is_some() && input.get(parent_key).is_none();
    let mut s = KeepParentState { path, parent_key: owned(parent_key), done_text, input, writing: false };
    if renames {
        let c = get(copy_string(&s.path));
        Step::Call(s, c)
    } else {
        s.writing = true;
        let c = write_call(&s.path, &s.input);
        Step::Call(s, c)
    }
}

/// The step after a reply in an update that keeps the parent.
pub fn keep_parent_next(s: KeepParentState, reply: Result<Json, GlpiError>) -> (r: Step<KeepParentState, String>)
    requires
        keep_parent_wf(s),
    ensures
        keep_parent_step_view(r) == keep_parent_next_spec(keep_parent_view(s), reply_view(reply)),
        r matches Step::Call(st, _) ==> keep_parent_wf(st),
{
    let v = match reply {
        Err(e) => return Step::Done(Err(e.message())),
        Ok(v) => v,
    };
    if s.writing {
        return Step::Done(Ok(s.done_text));
    }
    let mut s = s;
    match v.get(s.parent_key.as_str()) {
        Some(p) => {
            let key = copy_string(&s.parent_key);
            s.input.insert(key, p.deep_clone());
        },
        None => {},
    }
    s.writing = true;
    let c = write_call(&s.path, &s.input);
    Step::Call(s, c)
}


/// A rename that does not set the parent reads the item first, and then writes the fields
/// with the item's current parent added; the other fields are written as given.
pub proof fn lemma_rename_keeps_parent(
    path: Seq<char>,
    parent_key: Seq<char>,
    done_text: Seq<char>,
    fields: Seq<(Seq<char>, JsonV)>,
    current: JsonV,
    parent: JsonV,
)
    requires
        member(fields, "name"@) is Some,
        member(fields, parent_key) is None,
        jget(current, parent_key) == Some(parent),
    ensures
        ({
            let s = KeepParentStateV { path, parent_key, done_text, input: fields, writing: false };
            let written = member_insert(fields, parent_key, parent);
            &&& keep_parent_start_spec(path, parent_key, done_text, fields) == StepV::<KeepParentStateV, Seq<char>>::Call(s, get_v(path))
            &&& keep_parent_next_spec(s, Ok(current)) == StepV::<KeepParentStateV, Seq<char>>::Call(
                KeepParentStateV { input: written, writing: true, ..s },
                write_v(path, written),
            )
            &&& member(written, parent_key) == Some(parent)
            &&& member(written, "name"@) == member(fields, "name"@)
        }),
{
    crate::json::lemma_member_insert_reads_back(fields, parent_key, parent);
    crate::json::lemma_member_insert_keeps_others(fields, parent_key, parent, "name"@);
}

} // verus!
