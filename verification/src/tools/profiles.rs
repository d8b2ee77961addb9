//! GLPI profiles (roles and their rights).
use vstd::prelude::*;
use crate::call::{
    delete, delete_v, get, get_q_v, get_query, get_v, flag, input_of, jflag, jint, pairs_view, path_id,
    path_id_suffix, post, post_v, push_member, push_param, put, put_v, single, text_out_view, Call, CallV,
};
use crate::error::GlpiError;
use crate::json::{copy_string, jget_i64, owned, view_items, view_members, Json, JsonV};
use crate::markdown::{
    escape_cell, escape_cell_spec, id_field, id_field_spec, into_array, rows_view, str_field, str_field_spec,
    strings_view, strs_view,
};
use crate::step::{reply_view, Step, StepV};
use crate::text::{extend_str, int_text, push_int, string_of};
use crate::tools::common::{
    build_rows, copy_members, counted_table, counted_table_spec, created_answer, created_spec, data_items,
    data_rows, get_or, get_or_exec, id_message, map_ok, quoted_created, quoted_created_exec, text_answer,
    text_answer_spec, yes_no, yes_no_exec,
};

verus! {

broadcast use vstd::string::group_string_axioms;

/// The interface a new profile gets by default: 1, central (technician).
pub fn default_interface() -> (r: i64)
    ensures
        r == 1,
{
    1
}

/// Lists the profiles.
pub fn get_profiles_call() -> (c: Call)
    ensures
        crate::call::call_view(c) == get_v("/Profile"@),
{
    get(owned("/Profile"))
}

/// A profile's row: id, name, whether it is the default profile.
pub open spec fn profile_row(p: JsonV) -> Seq<Seq<char>> {
    seq![
        id_field_spec(p, "id"@),
        escape_cell_spec(str_field_spec(p, "name"@)),
        yes_no(jget_i64(p, "is_default"@) == Some(1int)),
    ]
}

fn profile_row_exec(p: &Json) -> (r: Vec<String>)
    ensures
        strings_view(r@) == profile_row(p@),
{
    let is_default = match p.get_i64("is_default") {
        Some(n) => n == 1,
        None => false,
    };
    let mut r: Vec<String> = Vec::new();
    r.push(id_field(p, "id"));
    r.push(escape_cell(str_field(p, "name").as_str()));
    r.push(yes_no_exec(is_default));
    assert(strings_view(r@) =~= profile_row(p@));
    r
}

/// The table of the profiles.
pub open spec fn profiles_text(v: JsonV) -> Seq<char> {
    let items = crate::markdown::array_items(v);
    if items.len() == 0 {
        "No profiles."@
    } else {
        counted_table_spec(items.len() as int, " profile(s)"@, seq!["ID"@, "Name"@, "Default"@], items.map_values(|r: JsonV| profile_row(r)))
    }
}

/// The answer listing the profiles.
pub fn get_profiles_answer(r: Result<Json, GlpiError>) -> (out: Result<String, String>)
    ensures
        text_out_view(out) == map_ok(reply_view(r), |v: JsonV| profiles_text(v)),
{
    let v = match r {
        Ok(v) => v,
        Err(e) => return Err(e.message()),
    };
    let items = into_array(v);
    if items.len() == 0 {
        return Ok(owned("No profiles."));
    }
    let rows = build_rows(&items, profile_row_exec);
    let headers = ["ID", "Name", "Default"];
    proof {
        assert(rows_view(rows@) =~= view_items(items@).map_values(|r: JsonV| profile_row(r)));
        assert(strs_view(headers@) =~= seq!["ID"@, "Name"@, "Default"@]);
    }
    Ok(counted_table(items.len(), " profile(s)", &headers, &rows))
}

pub struct FindProfileParams {
    /// Name to search for (case-insensitive, partial match).
    pub name: String,
}

/// A search by name that shows ids (field 2) and names (field 1).
pub open spec fn find_by_name_v(endpoint: Seq<char>, field: Seq<char>, name: Seq<char>) -> CallV {
    get_q_v(endpoint, seq![
        ("criteria[0][field]"@, field),
        ("criteria[0][searchtype]"@, "contains"@),
        ("criteria[0][value]"@, name),
        ("forcedisplay[0]"@, "2"@),
        ("forcedisplay[1]"@, "1"@),
    ])
}

/// The query of a search by name that shows ids and names.
pub fn find_by_name_query(field: &str, name: &String) -> (q: Vec<(String, String)>)
    ensures
        pairs_view(q@) == seq![
            ("criteria[0][field]"@, field@),
            ("criteria[0][searchtype]"@, "contains"@),
            ("criteria[0][value]"@, name@),
            ("forcedisplay[0]"@, "2"@),
            ("forcedisplay[1]"@, "1"@),
        ],
{
    let mut q: Vec<(String, String)> = Vec::new();
    push_param(&mut q, "criteria[0][field]", owned(field));
    push_param(&mut q, "criteria[0][searchtype]", owned("contains"));
    push_param(&mut q, "criteria[0][value]", copy_string(name));
    push_param(&mut q, "forcedisplay[0]", owned("2"));
    push_param(&mut q, "forcedisplay[1]", owned("1"));
    assert(pairs_view(q@) =~= seq![
        ("criteria[0][field]"@, field@),
        ("criteria[0][searchtype]"@, "contains"@),
        ("criteria[0][value]"@, name@),
        ("forcedisplay[0]"@, "2"@),
        ("forcedisplay[1]"@, "1"@),
    ]);
    q
}

/// Searches the profiles by name.
pub fn find_profile_call(p: &FindProfileParams) -> (c: Call)
    ensures
        crate::call::call_view(c) == find_by_name_v("/search/Profile"@, "1"@, p.name@),
{
    get_query(owned("/search/Profile"), find_by_name_query("1", &p.name))
}

/// A found item's row: id (field 2) and name (field 1).
pub open spec fn id_name_row(row: JsonV) -> Seq<Seq<char>> {
    seq![id_field_spec(row, "2"@), escape_cell_spec(str_field_spec(row, "1"@))]
}

pub fn id_name_row_exec(row: &Json) -> (r: Vec<String>)
    ensures
        strings_view(r@) == id_name_row(row@),
{
    let mut r: Vec<String> = Vec::new();
    r.push(id_field(row, "2"));
    r.push(escape_cell(str_field(row, "1").as_str()));
    assert(strings_view(r@) =~= id_name_row(row@));
    r
}

/// The table of the items a search by name found, or `none` when it found nothing.
pub open spec fn found_text(v: JsonV, none: Seq<char>, noun: Seq<char>) -> Seq<char> {
    let items = data_items(v);
    if items.len() == 0 {
        none
    } else {
        counted_table_spec(items.len() as int, noun, seq!["ID"@, "Name"@], items.map_values(|r: JsonV| id_name_row(r)))
    }
}

/// The answer to a search by name.
pub fn found_answer(r: Result<Json, GlpiError>, none: &str, noun: &str) -> (out: Result<String, String>)
    ensures
        text_out_view(out) == map_ok(reply_view(r), |v: JsonV| found_text(v, none@, noun@)),
{
    let v = match r {
        Ok(v) => v,
        Err(e) => return Err(e.message()),
    };
    let items = data_rows(&v);
    if items.len() == 0 {
        return Ok(owned(none));
    }
    let rows = build_rows(&items, id_name_row_exec);
    let headers = ["ID", "Name"];
    proof {
        assert(rows_view(rows@) =~= view_items(items@).map_values(|r: JsonV| id_name_row(r)));
        assert(strs_view(headers@) =~= seq!["ID"@, "Name"@]);
    }
    Ok(counted_table(items.len(), noun, &headers, &rows))
}

/// The answer to a profile search.
pub fn find_profile_answer(r: Result<Json, GlpiError>) -> (out: Result<String, String>)
    ensures
        text_out_view(out) == map_ok(reply_view(r), |v: JsonV| found_text(v, "No matching profiles."@, " profile(s) found"@)),
{
    found_answer(r, "No matching profiles.", " profile(s) found")
}

pub struct CreateProfileParams {
    pub name: String,
    /// 1 = central (technician), 2 = helpdesk (self-service).
    pub interface: i64,
    /// Owning entity ID (0 = root entity).
    pub entities_id: i64,
    pub is_default: bool,
}

/// Creates a profile.
pub fn create_profile_call(p: &CreateProfileParams) -> (c: Call)
    ensures
        crate::call::call_view(c) == post_v("/Profile"@, single("input"@, JsonV::Object(seq![
            ("name"@, JsonV::Str(p.name@)),
            ("interface"@, JsonV::Int(p.interface as int)),
            ("entities_id"@, JsonV::Int(p.entities_id as int)),
            ("is_default"@, flag(p.is_default)),
        ]))),
{
    let mut m: Vec<(String, Json)> = Vec::new();
    push_member(&mut m, "name", Json::Str(copy_string(&p.name)));
    push_member(&mut m, "interface", jint(p.interface));
    push_member(&mut m, "entities_id", jint(p.entities_id));
    push_member(&mut m, "is_default", jflag(p.is_default));
    assert(view_members(m@) =~= seq![
        ("name"@, JsonV::Str(p.name@)),
        ("interface"@, JsonV::Int(p.interface as int)),
        ("entities_id"@, JsonV::Int(p.entities_id as int)),
        ("is_default"@, flag(p.is_default)),
    ]);
    post(owned("/Profile"), input_of(Json::Object(m)))
}

/// The answer to a profile's creation.
pub fn create_profile_answer(p: &CreateProfileParams, r: Result<Json, GlpiError>) -> (out: Result<String, String>)
    ensures
        text_out_view(out) == created_spec(reply_view(r), "Profile #"@, quoted_created(p.name@)),
{
    created_answer(r, "Profile #", quoted_created_exec(&p.name))
}

pub struct UpdateProfileParams {
    pub profile_id: i64,
    /// Fields to change, e.g. name, interface, is_default.
    pub update_fields: Vec<(String, Json)>,
}

/// Writes the given fields of a profile.
pub fn update_profile_call(p: &UpdateProfileParams) -> (c: Call)
    ensures
        crate::call::call_view(c) == put_v(
            "/Profile/"@ + int_text(p.profile_id as int),
            single("input"@, JsonV::Object(view_members(p.update_fields@))),
        ),
{
    put(path_id("/Profile/", p.profile_id), input_of(Json::Object(copy_members(&p.update_fields))))
}

/// The answer to a profile's update.
pub fn update_profile_answer(p: &UpdateProfileParams, r: Result<Json, GlpiError>) -> (out: Result<String, String>)
    ensures
        text_out_view(out) == text_answer_spec(reply_view(r), "Profile #"@ + int_text(p.profile_id as int) + " updated."@),
{
    text_answer(r, id_message("Profile #", p.profile_id, " updated."))
}

pub struct DeleteProfileParams {
    pub profile_id: i64,
}

/// Deletes a profile.
pub fn delete_profile_call(p: &DeleteProfileParams) -> (c: Call)
    ensures
        crate::call::call_view(c) == delete_v("/Profile/"@ + int_text(p.profile_id as int)),
{
    delete(path_id("/Profile/", p.profile_id))
}

/// The answer to a profile's deletion.
pub fn delete_profile_answer(p: &DeleteProfileParams, r: Result<Json, GlpiError>) -> (out: Result<String, String>)
    ensures
        text_out_view(out) == text_answer_spec(reply_view(r), "Profile #"@ + int_text(p.profile_id as int) + " deleted."@),
{
    text_answer(r, id_message("Profile #", p.profile_id, " deleted."))
}

pub struct DuplicateProfileParams {
    /// Profile ID to copy rights from.
    pub source_profile_id: i64,
    /// Name for the new profile.
    pub new_name: String,
}

/// Where a profile duplication stands.
#[derive(Clone, Copy, PartialEq, Eq, Structural)]
pub enum DupProfilePhase {
    /// The source profile is being read.
    Source,
    /// The new profile is being created.
    Create,
    /// The source's rights are being read.
    RightsList,
    /// The right at `next` is being copied.
    CopyRight,
}

pub struct DupProfileState {
    pub source_profile_id: i64,
    pub new_name: String,
    pub new_id: String,
    pub rights: Vec<Json>,
    pub next: usize,
    pub phase: DupProfilePhase,
    pub copied: usize,
}

pub struct DupProfileStateV {
    pub source_profile_id: int,
    pub new_name: Seq<char>,
    pub new_id: Seq<char>,
    pub rights: Seq<JsonV>,
    pub next: int,
    pub phase: DupProfilePhase,
    pub copied: int,
}

pub open spec fn dup_profile_view(s: DupProfileState) -> DupProfileStateV {
    DupProfileStateV {
        source_profile_id: s.source_profile_id as int,
        new_name: s.new_name@,
        new_id: s.new_id@,
        rights: view_items(s.rights@),
        next: s.next as int,
        phase: s.phase,
        copied: s.copied as int,
    }
}

pub open spec fn dup_profile_step_view(s: Step<DupProfileState, String>) -> StepV<DupProfileStateV, Seq<char>> {
    match s {
        Step::Call(st, c) => StepV::Call(dup_profile_view(st), crate::call::call_view(c)),
        Step::Done(Ok(t)) => StepV::Done(Ok(t@)),
        Step::Done(Err(e)) => StepV::Done(Err(e@)),
    }
}

/// The well-formed states of a duplication.
pub open spec fn dup_profile_wf(s: DupProfileStateV) -> bool {
    &&& (s.phase != DupProfilePhase::CopyRight ==> s.copied == 0)
    &&& (s.phase == DupProfilePhase::CopyRight ==> 0 <= s.next < s.rights.len()
        && crate::tools::rules::has_text(s.rights[s.next], "name"@) && s.copied <= s.next)
}

/// The new profile: the source's interface and entity (with defaults), not the default one.
pub open spec fn new_profile_body(source: JsonV, name: Seq<char>) -> JsonV {
    single("input"@, JsonV::Object(seq![
        ("name"@, JsonV::Str(name)),
        ("interface"@, get_or(source, "interface"@, JsonV::Int(1))),
        ("entities_id"@, get_or(source, "entities_id"@, JsonV::Int(0))),
        ("is_default"@, JsonV::Int(0)),
    ]))
}

/// The copy of a right into the new profile.
pub open spec fn right_copy_body(profile_id: Seq<char>, right: JsonV) -> JsonV {
    single("input"@, JsonV::Object(seq![
        ("profiles_id"@, JsonV::Str(profile_id)),
        ("name"@, JsonV::Str(str_field_spec(right, "name"@))),
        ("rights"@, get_or(right, "rights"@, JsonV::Int(0))),
    ]))
}

/// Each copied right points at the new profile, has the source right's name, and carries
/// the source right's own `rights` value; it gets 0 only when the source right has none.
pub proof fn lemma_right_copy_keeps_rights(profile_id: Seq<char>, right: JsonV)
    ensures
        ({
            let input = crate::json::jget(right_copy_body(profile_id, right), "input"@);
            &&& input is Some
            &&& crate::json::jget(input->0, "profiles_id"@) == Some(JsonV::Str(profile_id))
            &&& crate::json::jget(input->0, "name"@) == Some(JsonV::Str(str_field_spec(right, "name"@)))
            &&& crate::json::jget(input->0, "rights"@) == Some(match crate::json::jget(right, "rights"@) {
                Some(x) => x,
                None => JsonV::Int(0),
            })
        }),
{
    reveal_strlit("input");
    reveal_strlit("profiles_id");
    reveal_strlit("name");
    reveal_strlit("rights");
    reveal_with_fuel(crate::json::member, 4);
    assert("profiles_id"@ != "rights"@) by {
        assert("profiles_id"@.len() != "rights"@.len());
    }
    assert("name"@ != "rights"@) by {
        assert("name"@[0] != "rights"@[0]);
    }
    assert("profiles_id"@ != "name"@) by {
        assert("profiles_id"@.len() != "name"@.len());
    }
}

/// The report of a finished duplication.
pub open spec fn dup_profile_text(s: DupProfileStateV, copied: int) -> Seq<char> {
    "Profile #"@ + s.new_id + " \""@ + s.new_name + "\" created from #"@ + int_text(s.source_profile_id)
        + " ("@ + int_text(copied) + " right(s) copied)."@
}

/// The first step: read the source profile.
pub open spec fn dup_profile_start_spec(source_profile_id: int, new_name: Seq<char>) -> StepV<DupProfileStateV, Seq<char>> {
    StepV::Call(
        DupProfileStateV {
            source_profile_id,
            new_name,
            new_id: Seq::empty(),
            rights: Seq::empty(),
            next: 0,
            phase: DupProfilePhase::Source,
            copied: 0,
        },
        get_v("/Profile/"@ + int_text(source_profile_id)),
    )
}

/// After the rights at and after `from`: copy the next one that has a name, or report.
pub open spec fn after_rights(s: DupProfileStateV, from: int) -> StepV<DupProfileStateV, Seq<char>> {
    let j = crate::tools::rules::next_with_text(s.rights, "name"@, from);
    if j < s.rights.len() {
        StepV::Call(
            DupProfileStateV { next: j, phase: DupProfilePhase::CopyRight, ..s },
            post_v("/ProfileRight"@, right_copy_body(s.new_id, s.rights[j])),
        )
    } else {
        StepV::Done(Ok(dup_profile_text(s, s.copied)))
    }
}

/// The step after a reply. Any error ends the duplication with its text. The source gives
/// the new profile, then each right of the source that has a name is copied to it.
pub open spec fn dup_profile_next_spec(s: DupProfileStateV, reply: Result<JsonV, Seq<char>>) -> StepV<DupProfileStateV, Seq<char>> {
    match reply {
        Err(e) => StepV::Done(Err(e)),
        Ok(v) => match s.phase {
            DupProfilePhase::Source => StepV::Call(
                DupProfileStateV { phase: DupProfilePhase::Create, ..s },
                post_v("/Profile"@, new_profile_body(v, s.new_name)),
            ),
            DupProfilePhase::Create => StepV::Call(
                DupProfileStateV { new_id: id_field_spec(v, "id"@), phase: DupProfilePhase::RightsList, ..s },
                get_v("/Profile/"@ + int_text(s.source_profile_id) + "/ProfileRight"@),
            ),
            DupProfilePhase::RightsList => after_rights(
                DupProfileStateV { rights: crate::markdown::array_items(v), ..s },
                0,
            ),
            DupProfilePhase::CopyRight => after_rights(DupProfileStateV { copied: s.copied + 1, ..s }, s.next + 1),
        },
    }
}

/// Starts the duplication of a profile with its rights.
pub fn duplicate_profile_start(p: &DuplicateProfileParams) -> (r: Step<DupProfileState, String>)
    ensures
        dup_profile_step_view(r) == dup_profile_start_spec(p.source_profile_id as int, p.new_name@),
        r matches Step::Call(st, _) && dup_profile_wf(dup_profile_view(st)),
{
    let rights: Vec<Json> = Vec::new();
    assert(view_items(rights@) =~= Seq::<JsonV>::empty());
    let st = DupProfileState {
        source_profile_id: p.source_profile_id,
        new_name: copy_string(&p.new_name),
        new_id: String::new(),
        rights,
        next: 0,
        phase: DupProfilePhase::Source,
        copied: 0,
    };
    Step::Call(st, get(path_id("/Profile/", p.source_profile_id)))
}

fn right_copy_call(profile_id: &String, right: &Json) -> (c: Call)
    ensures
        crate::call::call_view(c) == post_v("/ProfileRight"@, right_copy_body(profile_id@, right@)),
{
    let mut m: Vec<(String, Json)> = Vec::new();
    push_member(&mut m, "profiles_id", Json::Str(copy_string(profile_id)));
    push_member(&mut m, "name", Json::Str(str_field(right, "name")));
    push_member(&mut m, "rights", get_or_exec(right, "rights", jint(0)));
    assert(view_members(m@) =~= seq![
        ("profiles_id"@, JsonV::Str(profile_id@)),
        ("name"@, JsonV::Str(str_field_spec(right@, "name"@))),
        ("rights"@, get_or(right@, "rights"@, JsonV::Int(0))),
    ]);
    post(owned("/ProfileRight"), input_of(Json::Object(m)))
}

fn dup_profile_report(s: &DupProfileState, copied: usize) -> (r: String)
    ensures
        r@ == dup_profile_text(dup_profile_view(*s), copied as int),
{
    let mut out: Vec<char> = Vec::new();
    extend_str(&mut out, "Profile #");
    extend_str(&mut out, s.new_id.as_str());
    extend_str(&mut out, " \"");
    extend_str(&mut out, s.new_name.as_str());
    extend_str(&mut out, "\" created from #");
    push_int(&mut out, s.source_profile_id as i128);
    extend_str(&mut out, " (");
    push_int(&mut out, copied as i128);
    extend_str(&mut out, " right(s) copied).");
    string_of(out.as_slice())
}

fn dup_after_rights(s: DupProfileState, from: usize) -> (r: Step<DupProfileState, String>)
    requires
        from <= s.rights.len(),
        s.copied <= from,
    ensures
        dup_profile_step_view(r) == after_rights(dup_profile_view(s), from as int),
        r matches Step::Call(st, _) ==> dup_profile_wf(dup_profile_view(st)),
{
    let mut s = s;
    let j = crate::tools::rules::next_with_text_exec(&s.rights, "name", from);
    proof {
        crate::tools::rules::lemma_next_with_text_bounds(view_items(s.rights@), "name"@, from as int);
    }
    if j < s.rights.len() {
        let c = right_copy_call(&s.new_id, &s.rights[j]);
        s.next = j;
        s.phase = DupProfilePhase::CopyRight;
        Step::Call(s, c)
    } else {
        let n = s.copied;
        Step::Done(Ok(dup_profile_report(&s, n)))
    }
}

/// The step after a reply in a profile duplication.
pub fn duplicate_profile_next(s: DupProfileState, reply: Result<Json, GlpiError>) -> (r: Step<DupProfileState, String>)
    requires
        dup_profile_wf(dup_profile_view(s)),
    ensures
        dup_profile_step_view(r) == dup_profile_next_spec(dup_profile_view(s), reply_view(reply)),
        r matches Step::Call(st, _) ==> dup_profile_wf(dup_profile_view(st)),
{
    let v = match reply {
        Err(e) => return Step::Done(Err(e.message())),
        Ok(v) => v,
    };
    let mut s = s;
    match s.phase {
        DupProfilePhase::Source => {
            let mut m: Vec<(String, Json)> = Vec::new();
            push_member(&mut m, "name", Json::Str(copy_string(&s.new_name)));
            push_member(&mut m, "interface", get_or_exec(&v, "interface", jint(1)));
            push_member(&mut m, "entities_id", get_or_exec(&v, "entities_id", jint(0)));
            push_member(&mut m, "is_default", jint(0));
            assert(view_members(m@) =~= seq![
                ("name"@, JsonV::Str(s.new_name@)),
                ("interface"@, get_or(v@, "interface"@, JsonV::Int(1))),
                ("entities_id"@, get_or(v@, "entities_id"@, JsonV::Int(0))),
                ("is_default"@, JsonV::Int(0)),
            ]);
            let c = post(owned("/Profile"), input_of(Json::Object(m)));
            s.phase = DupProfilePhase::Create;
            Step::Call(s, c)
        },
        DupProfilePhase::Create => {
            s.new_id = id_field(&v, "id");
            s.phase = DupProfilePhase::RightsList;
            let c = get(path_id_suffix("/Profile/", s.source_profile_id, "/ProfileRight"));
            Step::Call(s, c)
        },
        DupProfilePhase::RightsList => {
            s.rights = into_array(v);
            dup_after_rights(s, 0)
        },
        DupProfilePhase::CopyRight => {
            assert(s.next < s.rights.len());
            s.copied = s.copied + 1;
            let from = s.next + 1;
            dup_after_rights(s, from)
        },
    }
}

} // verus!
