//! Ticket routing rules: finding, creating, editing and duplicating rules, their criteria
//! and their actions.
use vstd::prelude::*;
use crate::call::{
    delete, delete_v, get, get_q_v, get_query, get_v, i64_string, input_of, jint, jflag, flag, jtext,
    pairs_view, path_id, path_id_suffix, path_text, post, post_v, push_member, push_param, put, put_v,
    single, Call, CallV,
};
use crate::error::{error_text, GlpiError};
use crate::json::{copy_string, jget, jget_i64, jget_str, owned, view_items, view_members, Json, JsonV};
use crate::markdown::{
    escape_cell, escape_cell_spec, id_field, id_field_spec, into_array, str_field, str_field_spec, table,
    table_spec, strs_view, rows_view,
};
use crate::step::{reply_view, Step, StepV};
use crate::tools::common::{copy_members, get_or, get_or_exec, map_ok, quoted_created, quoted_created_exec, yes_no, yes_no_exec, build_rows, counted_table, counted_table_spec, created_answer, created_spec, data_items, data_rows, id_message, text_answer, text_answer_spec};
use crate::call::text_out_view;
use crate::text::{chars_of, contains, contains_exec, extend, extend_str, int_text, lowercase, push_int, str_lowercase, string_of};

verus! {

broadcast use vstd::string::group_string_axioms;

/// How a new rule combines its criteria by default: `AND`.
pub fn default_match() -> (r: String)
    ensures
        r@ == "AND"@,
{
    owned("AND")
}

/// Default flag value: true.
pub fn default_true() -> (r: bool)
    ensures
        r,
{
    true
}

/// The type of a new rule action by default: `assign`.
pub fn default_action_type() -> (r: String)
    ensures
        r@ == "assign"@,
{
    owned("assign")
}

pub struct FindGroupRuleReferencesParams {
    /// GLPI group ID to search for in ticket routing rules.
    pub group_id: i64,
}

/// A rule's id, as a search row gives it (field 2).
pub open spec fn rule_id_of(rule: JsonV) -> Seq<char> {
    id_field_spec(rule, "2"@)
}

/// Whether a search row says the rule is active (field 8 is 1).
pub open spec fn rule_active(rule: JsonV) -> bool {
    jget_i64(rule, "8"@) == Some(1int)
}

/// A criterion or action of `rule` points at the group: its field names a group and its
/// value is the group's id.
pub open spec fn ref_match(row: JsonV, field_key: Seq<char>, value_key: Seq<char>, target: Seq<char>) -> bool {
    contains(str_lowercase(str_field_spec(row, field_key)), "group"@) && id_field_spec(row, value_key)
        == target
}

/// The table row reporting a match.
pub open spec fn ref_row(rule: JsonV, kind: Seq<char>, row: JsonV, field_key: Seq<char>, value_key: Seq<char>) -> Seq<Seq<char>> {
    seq![
        rule_id_of(rule),
        escape_cell_spec(str_field_spec(rule, "1"@)),
        yes_no(rule_active(rule)),
        kind,
        escape_cell_spec(str_field_spec(row, field_key)),
        escape_cell_spec(id_field_spec(row, value_key)),
        id_field_spec(row, "id"@),
    ]
}

/// The rows reporting the matches among `items`, in order.
pub open spec fn ref_rows(
    rule: JsonV,
    kind: Seq<char>,
    items: Seq<JsonV>,
    field_key: Seq<char>,
    value_key: Seq<char>,
    target: Seq<char>,
) -> Seq<Seq<Seq<char>>>
    decreases items.len(),
{
    if items.len() == 0 {
        Seq::empty()
    } else {
        let prev = ref_rows(rule, kind, items.drop_last(), field_key, value_key, target);
        if ref_match(items.last(), field_key, value_key, target) {
            prev.push(ref_row(rule, kind, items.last(), field_key, value_key))
        } else {
            prev
        }
    }
}

/// Whether an item (a criterion or an action) points at the group whose id text is
/// `target`: its field names a group and its value text is exactly `target`.
pub open spec fn points_at(item: JsonV, field_key: Seq<char>, value_key: Seq<char>, target: Seq<char>) -> bool {
    &&& contains(str_lowercase(str_field_spec(item, field_key)), "group"@)
    &&& id_field_spec(item, value_key) == target
}

/// The rows reported among `items` are exactly those of the items that point at the group:
/// each row is the row of such an item, so its value cell is the group's id text, and each
/// such item has its row; items whose value merely holds that text are not reported.
pub proof fn lemma_ref_rows_point_at_target(
    rule: JsonV,
    kind: Seq<char>,
    items: Seq<JsonV>,
    field_key: Seq<char>,
    value_key: Seq<char>,
    target: Seq<char>,
)
    ensures
        ({
            let rows = ref_rows(rule, kind, items, field_key, value_key, target);
            &&& rows.len() <= items.len()
            &&& forall|k: int| 0 <= k < rows.len() ==> exists|i: int|
                0 <= i < items.len() && points_at(items[i], field_key, value_key, target)
                    && #[trigger] rows[k] == ref_row(rule, kind, items[i], field_key, value_key)
            &&& forall|k: int| 0 <= k < rows.len() ==> (#[trigger] rows[k])[5] == escape_cell_spec(target)
            &&& forall|i: int| 0 <= i < items.len() && points_at(#[trigger] items[i], field_key, value_key, target)
                ==> rows.contains(ref_row(rule, kind, items[i], field_key, value_key))
        }),
    decreases items.len(),
{
    let rows = ref_rows(rule, kind, items, field_key, value_key, target);
    if items.len() > 0 {
        let t = items.drop_last();
        lemma_ref_rows_point_at_target(rule, kind, t, field_key, value_key, target);
        let prev = ref_rows(rule, kind, t, field_key, value_key, target);
        let x = items.last();
        assert forall|k: int| 0 <= k < rows.len() implies exists|i: int|
            0 <= i < items.len() && points_at(items[i], field_key, value_key, target)
                && #[trigger] rows[k] == ref_row(rule, kind, items[i], field_key, value_key) by {
            if k < prev.len() {
                assert(rows[k] == prev[k]);
                let i = choose|i: int| 0 <= i < t.len() && points_at(t[i], field_key, value_key, target)
                    && #[trigger] prev[k] == ref_row(rule, kind, t[i], field_key, value_key);
                assert(items[i] == t[i]);
            } else {
                assert(items[items.len() - 1] == x);
            }
        }
        assert forall|k: int| 0 <= k < rows.len() implies (#[trigger] rows[k])[5] == escape_cell_spec(target) by {
            if k < prev.len() {
                assert(rows[k] == prev[k]);
            }
        }
        assert forall|i: int| 0 <= i < items.len() && points_at(#[trigger] items[i], field_key, value_key, target)
            implies rows.contains(ref_row(rule, kind, items[i], field_key, value_key)) by {
            if i < t.len() {
                assert(items[i] == t[i]);
                let k = choose|k: int| 0 <= k < prev.len() && prev[k] == ref_row(rule, kind, t[i], field_key, value_key);
                assert(rows[k] == prev[k]);
            } else {
                assert(rows[rows.len() - 1] == ref_row(rule, kind, x, field_key, value_key));
            }
        }
    }
}

/// The headers of the references table.
pub open spec fn refs_headers() -> Seq<Seq<char>> {
    seq!["Rule ID"@, "Rule name"@, "Active"@, "Kind"@, "Field"@, "Value"@, "Row ID"@]
}

/// The report of the references found.
pub open spec fn refs_text(group_id: int, rows: Seq<Seq<Seq<char>>>) -> Seq<char> {
    if rows.len() == 0 {
        "No RuleTicket criteria/actions reference group #"@ + int_text(group_id) + "."@
    } else {
        "**"@ + int_text(rows.len() as int) + " match(es) referencing group #"@ + int_text(group_id)
            + "**\n\n"@ + table_spec(refs_headers(), rows)
    }
}

/// The search for the ticket routing rules (up to 501 of them).
pub open spec fn refs_search_v() -> CallV {
    get_q_v(
        "/search/Rule"@,
        seq![
            ("criteria[0][field]"@, "122"@),
            ("criteria[0][searchtype]"@, "contains"@),
            ("criteria[0][value]"@, "RuleTicket"@),
            ("forcedisplay[0]"@, "2"@),
            ("forcedisplay[1]"@, "1"@),
            ("forcedisplay[2]"@, "8"@),
            ("range"@, "0-500"@),
        ],
    )
}

/// Which list of the current rule is being read.
#[derive(Clone, Copy, PartialEq, Eq, Structural)]
pub enum RefsPhase {
    Search,
    Criteria,
    Actions,
}

/// Where a scan for group references stands.
pub struct RefsState {
    pub group_id: i64,
    pub target: String,
    pub rules: Vec<Json>,
    pub idx: usize,
    pub phase: RefsPhase,
    pub rows: Vec<Vec<String>>,
}

/// The mathematical form of a scan's state.
pub struct RefsStateV {
    pub group_id: int,
    pub target: Seq<char>,
    pub rules: Seq<JsonV>,
    pub idx: int,
    pub phase: RefsPhase,
    pub rows: Seq<Seq<Seq<char>>>,
}

pub open spec fn refs_state_view(s: RefsState) -> RefsStateV {
    RefsStateV {
        group_id: s.group_id as int,
        target: s.target@,
        rules: view_items(s.rules@),
        idx: s.idx as int,
        phase: s.phase,
        rows: rows_view(s.rows@),
    }
}

pub open spec fn refs_step_view(s: Step<RefsState, String>) -> StepV<RefsStateV, Seq<char>> {
    match s {
        Step::Call(st, c) => StepV::Call(refs_state_view(st), crate::call::call_view(c)),
        Step::Done(Ok(t)) => StepV::Done(Ok(t@)),
        Step::Done(Err(e)) => StepV::Done(Err(e@)),
    }
}

/// The call that reads the criteria (or the actions) of a rule.
pub open spec fn rule_list_v(rule: JsonV, actions: bool) -> CallV {
    get_v("/Rule/"@ + rule_id_of(rule) + if actions { "/RuleAction"@ } else { "/RuleCriteria"@ })
}

/// The well-formed states of a scan.
pub open spec fn refs_wf(s: RefsStateV) -> bool {
    &&& s.target == int_text(s.group_id)
    &&& (s.phase != RefsPhase::Search ==> 0 <= s.idx < s.rules.len())
}

/// The first step: search for the ticket routing rules.
pub open spec fn refs_start_spec(group_id: int) -> StepV<RefsStateV, Seq<char>> {
    StepV::Call(
        RefsStateV {
            group_id,
            target: int_text(group_id),
            rules: Seq::empty(),
            idx: 0,
            phase: RefsPhase::Search,
            rows: Seq::empty(),
        },
        refs_search_v(),
    )
}

/// The step after a reply. Any error ends the scan with its text. The search reply gives
/// the rules; for each rule its criteria, then its actions, are read, and the matches
/// among them are added to the report, which is given once the last rule is read.
pub open spec fn refs_next_spec(s: RefsStateV, reply: Result<JsonV, Seq<char>>) -> StepV<RefsStateV, Seq<char>> {
    match reply {
        Err(e) => StepV::Done(Err(e)),
        Ok(v) => match s.phase {
            RefsPhase::Search => {
                let rules = match jget(v, "data"@) {
                    Some(JsonV::Array(items)) => items,
                    _ => Seq::empty(),
                };
                if rules.len() == 0 {
                    StepV::Done(Ok(refs_text(s.group_id, s.rows)))
                } else {
                    StepV::Call(
                        RefsStateV { rules, idx: 0, phase: RefsPhase::Criteria, ..s },
                        rule_list_v(rules[0], false),
                    )
                }
            },
            RefsPhase::Criteria => {
                let rule = s.rules[s.idx];
                let items = crate::markdown::array_items(v);
                let rows = s.rows + ref_rows(rule, "criteria"@, items, "criteria"@, "pattern"@, s.target);
                StepV::Call(RefsStateV { rows, phase: RefsPhase::Actions, ..s }, rule_list_v(rule, true))
            },
            RefsPhase::Actions => {
                let rule = s.rules[s.idx];
                let items = crate::markdown::array_items(v);
                let rows = s.rows + ref_rows(rule, "action"@, items, "field"@, "value"@, s.target);
                if s.idx + 1 < s.rules.len() {
                    StepV::Call(
                        RefsStateV { rows, idx: s.idx + 1, phase: RefsPhase::Criteria, ..s },
                        rule_list_v(s.rules[s.idx + 1], false),
                    )
                } else {
                    StepV::Done(Ok(refs_text(s.group_id, rows)))
                }
            },
        },
    }
}

/// Starts a scan of the ticket routing rules for references to a group.
pub fn find_group_rule_references_start(params: &FindGroupRuleReferencesParams) -> (r: Step<RefsState, String>)
    ensures
        refs_step_view(r) == refs_start_spec(params.group_id as int),
        r matches Step::Call(st, _) && refs_wf(refs_state_view(st)),
{
    let mut q: Vec<(String, String)> = Vec::new();
    push_param(&mut q, "criteria[0][field]", owned("122"));
    push_param(&mut q, "criteria[0][searchtype]", owned("contains"));
    push_param(&mut q, "criteria[0][value]", owned("RuleTicket"));
    push_param(&mut q, "forcedisplay[0]", owned("2"));
    push_param(&mut q, "forcedisplay[1]", owned("1"));
    push_param(&mut q, "forcedisplay[2]", owned("8"));
    push_param(&mut q, "range", owned("0-500"));
    assert(pairs_view(q@) =~= seq![
        ("criteria[0][field]"@, "122"@),
        ("criteria[0][searchtype]"@, "contains"@),
        ("criteria[0][value]"@, "RuleTicket"@),
        ("forcedisplay[0]"@, "2"@),
        ("forcedisplay[1]"@, "1"@),
        ("forcedisplay[2]"@, "8"@),
        ("range"@, "0-500"@),
    ]);
    let c = get_query(owned("/search/Rule"), q);
    let rules: Vec<Json> = Vec::new();
    let rows: Vec<Vec<String>> = Vec::new();
    let st = RefsState {
        group_id: params.group_id,
        target: i64_string(params.group_id),
        rules,
        idx: 0,
        phase: RefsPhase::Search,
        rows,
    };
    proof {
        assert(view_items(rules@) =~= Seq::<JsonV>::empty());
        assert(rows_view(rows@) =~= Seq::<Seq<Seq<char>>>::empty());
        assert(crate::call::call_view(c) == refs_search_v());
    }
    Step::Call(st, c)
}

fn rule_list_call(rule: &Json, actions: bool) -> (c: Call)
    ensures
        crate::call::call_view(c) == rule_list_v(rule@, actions),
{
    let id = id_field(rule, "2");
    if actions {
        get(path_text("/Rule/", id.as_str(), "/RuleAction"))
    } else {
        get(path_text("/Rule/", id.as_str(), "/RuleCriteria"))
    }
}

fn ref_match_exec(row: &Json, field_key: &str, value_key: &str, target: &String) -> (r: bool)
    ensures
        r == ref_match(row@, field_key@, value_key@, target@),
{
    let field = str_field(row, field_key);
    let lower = lowercase(field.as_str());
    let lc = chars_of(lower.as_str());
    let pat = ['g', 'r', 'o', 'u', 'p'];
    proof {
        reveal_strlit("group");
        assert(pat@ =~= "group"@);
    }
    if !contains_exec(lc.as_slice(), &pat) {
        return false;
    }
    let value = id_field(row, value_key);
    let vc = chars_of(value.as_str());
    let tc = chars_of(target.as_str());
    crate::text::chars_eq(vc.as_slice(), tc.as_slice())
}

fn push_ref_rows(
    rows: &mut Vec<Vec<String>>,
    rule: &Json,
    kind: &str,
    items: &Vec<Json>,
    field_key: &str,
    value_key: &str,
    target: &String,
)
    ensures
        rows_view(final(rows)@) == rows_view(old(rows)@) + ref_rows(
            rule@,
            kind@,
            view_items(items@),
            field_key@,
            value_key@,
            target@,
        ),
{
    let mut i: usize = 0;
    while i < items.len()
        invariant
            i <= items.len(),
            rows_view(rows@) == rows_view(old(rows)@) + ref_rows(
                rule@,
                kind@,
                view_items(items@).take(i as int),
                field_key@,
                value_key@,
                target@,
            ),
        decreases items.len() - i,
    {
        let ghost its = view_items(items@);
        assert(its.take(i + 1).drop_last() =~= its.take(i as int));
        assert(its.take(i + 1).last() == items@[i as int]@);
        let row = &items[i];
        if ref_match_exec(row, field_key, value_key, target) {
            let mut cells: Vec<String> = Vec::new();
            cells.push(id_field(rule, "2"));
            cells.push(escape_cell(str_field(rule, "1").as_str()));
            let active = match rule.get_i64("8") {
                Some(n) => n == 1,
                None => false,
            };
            cells.push(yes_no_exec(active));
            cells.push(owned(kind));
            cells.push(escape_cell(str_field(row, field_key).as_str()));
            cells.push(escape_cell(id_field(row, value_key).as_str()));
            cells.push(id_field(row, "id"));
            proof {
                assert(crate::markdown::strings_view(cells@) =~= ref_row(rule@, kind@, row@, field_key@, value_key@));
            }
            let ghost before = rows_view(rows@);
            rows.push(cells);
            assert(rows_view(rows@) =~= before.push(crate::markdown::strings_view(cells@)));
        }
        i = i + 1;
    }
    assert(view_items(items@).take(items.len() as int) =~= view_items(items@));
}

fn refs_report(group_id: i64, rows: &Vec<Vec<String>>) -> (r: String)
    ensures
        r@ == refs_text(group_id as int, rows_view(rows@)),
{
    let mut out: Vec<char> = Vec::new();
    if rows.len() == 0 {
        extend_str(&mut out, "No RuleTicket criteria/actions reference group #");
        push_int(&mut out, group_id as i128);
        extend_str(&mut out, ".");
        return string_of(out.as_slice());
    }
    extend_str(&mut out, "**");
    push_int(&mut out, rows.len() as i128);
    extend_str(&mut out, " match(es) referencing group #");
    push_int(&mut out, group_id as i128);
    extend_str(&mut out, "**\n\n");
    let headers = ["Rule ID", "Rule name", "Active", "Kind", "Field", "Value", "Row ID"];
    assert(strs_view(headers@) =~= refs_headers());
    let t = table(&headers, rows.as_slice());
    extend_str(&mut out, t.as_str());
    string_of(out.as_slice())
}

/// The step after a reply in a scan for group references.
pub fn find_group_rule_references_next(s: RefsState, reply: Result<Json, GlpiError>) -> (r: Step<RefsState, String>)
    requires
        refs_wf(refs_state_view(s)),
    ensures
        refs_step_view(r) == refs_next_spec(refs_state_view(s), reply_view(reply)),
        r matches Step::Call(st, _) ==> refs_wf(refs_state_view(st)),
{
    let ghost sv = refs_state_view(s);
    let v = match reply {
        Err(e) => return Step::Done(Err(e.message())),
        Ok(v) => v,
    };
    let mut s = s;
    match s.phase {
        RefsPhase::Search => {
            let rules = match v.get("data") {
                Some(d) => into_array(d.deep_clone()),
                None => {
                    let e: Vec<Json> = Vec::new();
                    assert(view_items(e@) =~= Seq::<JsonV>::empty());
                    e
                },
            };
            if rules.len() == 0 {
                return Step::Done(Ok(refs_report(s.group_id, &s.rows)));
            }
            let c = rule_list_call(&rules[0], false);
            s.rules = rules;
            s.idx = 0;
            s.phase = RefsPhase::Criteria;
            Step::Call(s, c)
        },
        RefsPhase::Criteria => {
            let items = into_array(v);
            let target = copy_string(&s.target);
            push_ref_rows(&mut s.rows, &s.rules[s.idx], "criteria", &items, "criteria", "pattern", &target);
            let c = rule_list_call(&s.rules[s.idx], true);
            s.phase = RefsPhase::Actions;
            Step::Call(s, c)
        },
        RefsPhase::Actions => {
            let items = into_array(v);
            let target = copy_string(&s.target);
            push_ref_rows(&mut s.rows, &s.rules[s.idx], "action", &items, "field", "value", &target);
            assert(s.idx < s.rules.len());
            if s.idx + 1 < s.rules.len() {
                let c = rule_list_call(&s.rules[s.idx + 1], false);
                s.idx = s.idx + 1;
                s.phase = RefsPhase::Criteria;
                Step::Call(s, c)
            } else {
                Step::Done(Ok(refs_report(s.group_id, &s.rows)))
            }
        },
    }
}

pub struct DuplicateRuleParams {
    /// Rule ID to copy criteria and actions from.
    pub source_rule_id: i64,
    /// Name for the new rule.
    pub new_name: String,
    /// Value overrides applied to copied actions, keyed by action field name.
    pub action_value_overrides: Vec<(String, Json)>,
}

/// Whether the item has a non-empty string at `key`.
pub open spec fn has_text(item: JsonV, key: Seq<char>) -> bool {
    str_field_spec(item, key).len() > 0
}

/// The first index at or after `from` of an item with a non-empty string at `key`
/// (the length of `items` when there is none).
pub open spec fn next_with_text(items: Seq<JsonV>, key: Seq<char>, from: int) -> int
    decreases items.len() - from,
{
    if from >= items.len() {
        items.len() as int
    } else if has_text(items[from], key) {
        from
    } else {
        next_with_text(items, key, from + 1)
    }
}

pub proof fn lemma_next_with_text_bounds(items: Seq<JsonV>, key: Seq<char>, from: int)
    requires
        0 <= from,
    ensures
        from <= next_with_text(items, key, from) || next_with_text(items, key, from) == items.len(),
        next_with_text(items, key, from) <= items.len() || from > items.len(),
        next_with_text(items, key, from) < items.len() ==> has_text(items[next_with_text(items, key, from)], key),
    decreases items.len() - from,
{
    if from < items.len() && !has_text(items[from], key) {
        lemma_next_with_text_bounds(items, key, from + 1);
    }
}

pub fn next_with_text_exec(items: &Vec<Json>, key: &str, from: usize) -> (r: usize)
    requires
        from <= items.len(),
    ensures
        r == next_with_text(view_items(items@), key@, from as int),
        from <= r <= items.len(),
{
    let mut i = from;
    while i < items.len()
        invariant
            from <= i <= items.len(),
            next_with_text(view_items(items@), key@, from as int) == next_with_text(view_items(items@), key@, i as int),
        decreases items.len() - i,
    {
        let t = str_field(&items[i], key);
        if !t.as_str().is_empty() {
            return i;
        }
        i = i + 1;
    }
    i
}

/// Where a rule duplication stands.
#[derive(Clone, Copy, PartialEq, Eq, Structural)]
pub enum DupRulePhase {
    /// The source rule is being read.
    Source,
    /// The new rule is being created.
    Create,
    /// The source's criteria are being read.
    CriteriaList,
    /// The criterion at `next` is being copied.
    CopyCriteria,
    /// The source's actions are being read.
    ActionsList,
    /// The action at `next` is being copied.
    CopyActions,
}

pub struct DupRuleState {
    pub source_rule_id: i64,
    pub new_name: String,
    pub overrides: Vec<(String, Json)>,
    pub new_rule_id: String,
    pub items: Vec<Json>,
    pub next: usize,
    pub phase: DupRulePhase,
    pub criteria_copied: usize,
    pub actions_copied: usize,
}

pub struct DupRuleStateV {
    pub source_rule_id: int,
    pub new_name: Seq<char>,
    pub overrides: Seq<(Seq<char>, JsonV)>,
    pub new_rule_id: Seq<char>,
    pub items: Seq<JsonV>,
    pub next: int,
    pub phase: DupRulePhase,
    pub criteria_copied: int,
    pub actions_copied: int,
}

pub open spec fn dup_rule_view(s: DupRuleState) -> DupRuleStateV {
    DupRuleStateV {
        source_rule_id: s.source_rule_id as int,
        new_name: s.new_name@,
        overrides: view_members(s.overrides@),
        new_rule_id: s.new_rule_id@,
        items: view_items(s.items@),
        next: s.next as int,
        phase: s.phase,
        criteria_copied: s.criteria_copied as int,
        actions_copied: s.actions_copied as int,
    }
}

pub open spec fn dup_rule_step_view(s: Step<DupRuleState, String>) -> StepV<DupRuleStateV, Seq<char>> {
    match s {
        Step::Call(st, c) => StepV::Call(dup_rule_view(st), crate::call::call_view(c)),
        Step::Done(Ok(t)) => StepV::Done(Ok(t@)),
        Step::Done(Err(e)) => StepV::Done(Err(e@)),
    }
}

/// The well-formed states of a duplication.
pub open spec fn dup_rule_wf(s: DupRuleStateV) -> bool {
    &&& (s.phase == DupRulePhase::Source || s.phase == DupRulePhase::Create || s.phase == DupRulePhase::CriteriaList
        ==> s.criteria_copied == 0 && s.actions_copied == 0)
    &&& (s.phase == DupRulePhase::CopyCriteria ==> 0 <= s.next < s.items.len() && has_text(s.items[s.next], "criteria"@)
        && s.criteria_copied <= s.next && s.actions_copied == 0)
    &&& (s.phase == DupRulePhase::ActionsList ==> s.actions_copied == 0)
    &&& (s.phase == DupRulePhase::CopyActions ==> 0 <= s.next < s.items.len() && has_text(s.items[s.next], "field"@)
        && s.actions_copied <= s.next)
}

/// The new rule: the source's sub type, match mode and entity (with defaults), active.
pub open spec fn new_rule_body(source: JsonV, name: Seq<char>) -> JsonV {
    single("input"@, JsonV::Object(seq![
        ("name"@, JsonV::Str(name)),
        ("sub_type"@, get_or(source, "sub_type"@, JsonV::Str(""@))),
        ("match"@, get_or(source, "match"@, JsonV::Str("AND"@))),
        ("is_active"@, JsonV::Int(1)),
        ("entities_id"@, get_or(source, "entities_id"@, JsonV::Int(0))),
    ]))
}

/// The copy of a criterion into the new rule.
pub open spec fn criterion_copy_body(rule_id: Seq<char>, row: JsonV) -> JsonV {
    single("input"@, JsonV::Object(seq![
        ("rules_id"@, JsonV::Str(rule_id)),
        ("criteria"@, JsonV::Str(str_field_spec(row, "criteria"@))),
        ("condition"@, get_or(row, "condition"@, JsonV::Int(0))),
        ("pattern"@, get_or(row, "pattern"@, JsonV::Str(""@))),
    ]))
}

/// The value an action copy gets: the override for its field, else its own value, else "".
pub open spec fn action_value(overrides: Seq<(Seq<char>, JsonV)>, row: JsonV) -> JsonV {
    match crate::json::member(overrides, str_field_spec(row, "field"@)) {
        Some(v) => v,
        None => get_or(row, "value"@, JsonV::Str(""@)),
    }
}

/// The copy of an action into the new rule.
pub open spec fn action_copy_body(rule_id: Seq<char>, overrides: Seq<(Seq<char>, JsonV)>, row: JsonV) -> JsonV {
    single("input"@, JsonV::Object(seq![
        ("rules_id"@, JsonV::Str(rule_id)),
        ("action_type"@, get_or(row, "action_type"@, JsonV::Str("assign"@))),
        ("field"@, JsonV::Str(str_field_spec(row, "field"@))),
        ("value"@, action_value(overrides, row)),
    ]))
}

/// Each copied criterion points at the new rule and keeps the source criterion's field,
/// condition and pattern (0 and "" where the source has none).
pub proof fn lemma_criterion_copy_keeps_source(rule_id: Seq<char>, row: JsonV)
    ensures
        ({
            let input = jget(criterion_copy_body(rule_id, row), "input"@);
            &&& input is Some
            &&& jget(input->0, "rules_id"@) == Some(JsonV::Str(rule_id))
            &&& jget(input->0, "criteria"@) == Some(JsonV::Str(str_field_spec(row, "criteria"@)))
            &&& jget(input->0, "condition"@) == Some(match jget(row, "condition"@) {
                Some(x) => x,
                None => JsonV::Int(0),
            })
            &&& jget(input->0, "pattern"@) == Some(match jget(row, "pattern"@) {
                Some(x) => x,
                None => JsonV::Str(""@),
            })
        }),
{
    reveal_strlit("input");
    reveal_strlit("rules_id");
    reveal_strlit("criteria");
    reveal_strlit("condition");
    reveal_strlit("pattern");
    reveal_with_fuel(crate::json::member, 5);
    assert("rules_id"@ != "criteria"@) by {
        assert("rules_id"@[0] != "criteria"@[0]);
    }
    assert("rules_id"@ != "condition"@) by {
        assert("rules_id"@[0] != "condition"@[0]);
    }
    assert("rules_id"@ != "pattern"@) by {
        assert("rules_id"@[0] != "pattern"@[0]);
    }
    assert("criteria"@ != "condition"@) by {
        assert("criteria"@[1] != "condition"@[1]);
    }
    assert("criteria"@ != "pattern"@) by {
        assert("criteria"@[0] != "pattern"@[0]);
    }
    assert("condition"@ != "pattern"@) by {
        assert("condition"@[0] != "pattern"@[0]);
    }
}

/// Each copied action points at the new rule and keeps the source action's field; its value
/// is the override given for that field whenever there is one, whatever value the source
/// action has, and otherwise the source action's own value ("" when it has none).
pub proof fn lemma_action_copy_value(rule_id: Seq<char>, overrides: Seq<(Seq<char>, JsonV)>, row: JsonV)
    ensures
        ({
            let input = jget(action_copy_body(rule_id, overrides, row), "input"@);
            let field = str_field_spec(row, "field"@);
            &&& input is Some
            &&& jget(input->0, "rules_id"@) == Some(JsonV::Str(rule_id))
            &&& jget(input->0, "action_type"@) == Some(match jget(row, "action_type"@) {
                Some(x) => x,
                None => JsonV::Str("assign"@),
            })
            &&& jget(input->0, "field"@) == Some(JsonV::Str(field))
            &&& jget(input->0, "value"@) == Some(match crate::json::member(overrides, field) {
                Some(v) => v,
                None => match jget(row, "value"@) {
                    Some(x) => x,
                    None => JsonV::Str(""@),
                },
            })
        }),
{
    reveal_strlit("input");
    reveal_strlit("rules_id");
    reveal_strlit("action_type");
    reveal_strlit("field");
    reveal_strlit("value");
    reveal_with_fuel(crate::json::member, 5);
    assert("rules_id"@ != "value"@) by {
        assert("rules_id"@.len() != "value"@.len());
    }
    assert("action_type"@ != "value"@) by {
        assert("action_type"@.len() != "value"@.len());
    }
    assert("field"@ != "value"@) by {
        assert("field"@[0] != "value"@[0]);
    }
    assert("rules_id"@ != "field"@) by {
        assert("rules_id"@.len() != "field"@.len());
    }
    assert("action_type"@ != "field"@) by {
        assert("action_type"@.len() != "field"@.len());
    }
    assert("rules_id"@ != "action_type"@) by {
        assert("rules_id"@.len() != "action_type"@.len());
    }
}

/// The report of a finished duplication.
pub open spec fn dup_rule_text(s: DupRuleStateV, actions_copied: int) -> Seq<char> {
    "Rule #"@ + s.new_rule_id + " \""@ + s.new_name + "\" created from #"@ + int_text(s.source_rule_id)
        + " ("@ + int_text(s.criteria_copied) + " criteria, "@ + int_text(actions_copied) + " action(s) copied)."@
}

/// The first step: read the source rule.
pub open spec fn dup_rule_start_spec(source_rule_id: int, new_name: Seq<char>, overrides: Seq<(Seq<char>, JsonV)>) -> StepV<DupRuleStateV, Seq<char>> {
    StepV::Call(
        DupRuleStateV {
            source_rule_id,
            new_name,
            overrides,
            new_rule_id: Seq::empty(),
            items: Seq::empty(),
            next: 0,
            phase: DupRulePhase::Source,
            criteria_copied: 0,
            actions_copied: 0,
        },
        get_v("/Rule/"@ + int_text(source_rule_id)),
    )
}

/// The step that reads the criteria (`actions` false) or actions of the source.
pub open spec fn source_list_v(source_rule_id: int, actions: bool) -> CallV {
    get_v("/Rule/"@ + int_text(source_rule_id) + if actions { "/RuleAction"@ } else { "/RuleCriteria"@ })
}

/// After the criteria at and after `from`: copy the next one that has a field, or read
/// the actions.
pub open spec fn after_criteria(s: DupRuleStateV, from: int) -> StepV<DupRuleStateV, Seq<char>> {
    let j = next_with_text(s.items, "criteria"@, from);
    if j < s.items.len() {
        StepV::Call(
            DupRuleStateV { next: j, phase: DupRulePhase::CopyCriteria, ..s },
            post_v("/RuleCriteria"@, criterion_copy_body(s.new_rule_id, s.items[j])),
        )
    } else {
        StepV::Call(
            DupRuleStateV { items: Seq::empty(), next: 0, phase: DupRulePhase::ActionsList, ..s },
            source_list_v(s.source_rule_id, true),
        )
    }
}

/// After the actions at and after `from`: copy the next one that has a field, or report.
pub open spec fn after_actions(s: DupRuleStateV, from: int) -> StepV<DupRuleStateV, Seq<char>> {
    let j = next_with_text(s.items, "field"@, from);
    if j < s.items.len() {
        StepV::Call(
            DupRuleStateV { next: j, phase: DupRulePhase::CopyActions, ..s },
            post_v("/RuleAction"@, action_copy_body(s.new_rule_id, s.overrides, s.items[j])),
        )
    } else {
        StepV::Done(Ok(dup_rule_text(s, s.actions_copied)))
    }
}

/// The step after a reply. Any error ends the duplication with its text. The source gives
/// the new rule, whose id the copies of the criteria and then of the actions (those with a
/// field) point at; the report counts the copies.
pub open spec fn dup_rule_next_spec(s: DupRuleStateV, reply: Result<JsonV, Seq<char>>) -> StepV<DupRuleStateV, Seq<char>> {
    match reply {
        Err(e) => StepV::Done(Err(e)),
        Ok(v) => match s.phase {
            DupRulePhase::Source => StepV::Call(
                DupRuleStateV { phase: DupRulePhase::Create, ..s },
                post_v("/Rule"@, new_rule_body(v, s.new_name)),
            ),
            DupRulePhase::Create => StepV::Call(
                DupRuleStateV { new_rule_id: id_field_spec(v, "id"@), phase: DupRulePhase::CriteriaList, ..s },
                source_list_v(s.source_rule_id, false),
            ),
            DupRulePhase::CriteriaList => after_criteria(
                DupRuleStateV { items: crate::markdown::array_items(v), ..s },
                0,
            ),
            DupRulePhase::CopyCriteria => after_criteria(
                DupRuleStateV { criteria_copied: s.criteria_copied + 1, ..s },
                s.next + 1,
            ),
            DupRulePhase::ActionsList => after_actions(
                DupRuleStateV { items: crate::markdown::array_items(v), ..s },
                0,
            ),
            DupRulePhase::CopyActions => after_actions(
                DupRuleStateV { actions_copied: s.actions_copied + 1, ..s },
                s.next + 1,
            ),
        },
    }
}

/// Starts the duplication of a rule with its criteria and actions.
pub fn duplicate_rule_start(params: &DuplicateRuleParams) -> (r: Step<DupRuleState, String>)
    ensures
        dup_rule_step_view(r) == dup_rule_start_spec(
            params.source_rule_id as int,
            params.new_name@,
            view_members(params.action_value_overrides@),
        ),
        r matches Step::Call(st, _) && dup_rule_wf(dup_rule_view(st)),
{
    let items: Vec<Json> = Vec::new();
    assert(view_items(items@) =~= Seq::<JsonV>::empty());
    let st = DupRuleState {
        source_rule_id: params.source_rule_id,
        new_name: copy_string(&params.new_name),
        overrides: copy_members(&params.action_value_overrides),
        new_rule_id: String::new(),
        items,
        next: 0,
        phase: DupRulePhase::Source,
        criteria_copied: 0,
        actions_copied: 0,
    };
    Step::Call(st, get(path_id("/Rule/", params.source_rule_id)))
}

fn member_lookup(m: &Vec<(String, Json)>, key: &String) -> (r: Option<Json>)
    ensures
        match r {
            Some(v) => crate::json::member(view_members(m@), key@) == Some(v@),
            None => crate::json::member(view_members(m@), key@) is None,
        },
{
    let mut i: usize = 0;
    assert(view_members(m@).skip(0) =~= view_members(m@));
    while i < m.len()
        invariant
            i <= m.len(),
            crate::json::member(view_members(m@), key@) == crate::json::member(view_members(m@).skip(i as int), key@),
        decreases m.len() - i,
    {
        assert(view_members(m@).skip(i as int).drop_first() =~= view_members(m@).skip(i + 1));
        let a = chars_of(m[i].0.as_str());
        let b = chars_of(key.as_str());
        if crate::text::chars_eq(a.as_slice(), b.as_slice()) {
            return Some(m[i].1.deep_clone());
        }
        i = i + 1;
    }
    None
}

fn criterion_copy_call(rule_id: &String, row: &Json) -> (c: Call)
    ensures
        crate::call::call_view(c) == post_v("/RuleCriteria"@, criterion_copy_body(rule_id@, row@)),
{
    let mut m: Vec<(String, Json)> = Vec::new();
    push_member(&mut m, "rules_id", Json::Str(copy_string(rule_id)));
    push_member(&mut m, "criteria", Json::Str(str_field(row, "criteria")));
    push_member(&mut m, "condition", get_or_exec(row, "condition", jint(0)));
    push_member(&mut m, "pattern", get_or_exec(row, "pattern", jtext("")));
    proof {
        reveal_strlit("");
    }
    let ghost mv = view_members(m@);
    assert(mv =~= seq![
        ("rules_id"@, JsonV::Str(rule_id@)),
        ("criteria"@, JsonV::Str(str_field_spec(row@, "criteria"@))),
        ("condition"@, get_or(row@, "condition"@, JsonV::Int(0))),
        ("pattern"@, get_or(row@, "pattern"@, JsonV::Str(""@))),
    ]);
    post(owned("/RuleCriteria"), input_of(Json::Object(m)))
}

fn action_copy_call(rule_id: &String, overrides: &Vec<(String, Json)>, row: &Json) -> (c: Call)
    ensures
        crate::call::call_view(c) == post_v("/RuleAction"@, action_copy_body(rule_id@, view_members(overrides@), row@)),
{
    let field = str_field(row, "field");
    let value = match member_lookup(overrides, &field) {
        Some(v) => v,
        None => get_or_exec(row, "value", jtext("")),
    };
    let mut m: Vec<(String, Json)> = Vec::new();
    push_member(&mut m, "rules_id", Json::Str(copy_string(rule_id)));
    push_member(&mut m, "action_type", get_or_exec(row, "action_type", jtext("assign")));
    push_member(&mut m, "field", Json::Str(field));
    push_member(&mut m, "value", value);
    proof {
        reveal_strlit("");
    }
    let ghost mv = view_members(m@);
    assert(mv =~= seq![
        ("rules_id"@, JsonV::Str(rule_id@)),
        ("action_type"@, get_or(row@, "action_type"@, JsonV::Str("assign"@))),
        ("field"@, JsonV::Str(str_field_spec(row@, "field"@))),
        ("value"@, action_value(view_members(overrides@), row@)),
    ]);
    post(owned("/RuleAction"), input_of(Json::Object(m)))
}

fn dup_rule_report(s: &DupRuleState, actions_copied: usize) -> (r: String)
    ensures
        r@ == dup_rule_text(dup_rule_view(*s), actions_copied as int),
{
    let mut out: Vec<char> = Vec::new();
    extend_str(&mut out, "Rule #");
    extend_str(&mut out, s.new_rule_id.as_str());
    extend_str(&mut out, " \"");
    extend_str(&mut out, s.new_name.as_str());
    extend_str(&mut out, "\" created from #");
    push_int(&mut out, s.source_rule_id as i128);
    extend_str(&mut out, " (");
    push_int(&mut out, s.criteria_copied as i128);
    extend_str(&mut out, " criteria, ");
    push_int(&mut out, actions_copied as i128);
    extend_str(&mut out, " action(s) copied).");
    string_of(out.as_slice())
}

fn dup_after_criteria(s: DupRuleState, from: usize) -> (r: Step<DupRuleState, String>)
    requires
        from <= s.items.len(),
        s.criteria_copied <= from,
        s.actions_copied == 0,
    ensures
        dup_rule_step_view(r) == after_criteria(dup_rule_view(s), from as int),
        r matches Step::Call(st, _) ==> dup_rule_wf(dup_rule_view(st)),
{
    let mut s = s;
    let j = next_with_text_exec(&s.items, "criteria", from);
    proof {
        lemma_next_with_text_bounds(view_items(s.items@), "criteria"@, from as int);
    }
    if j < s.items.len() {
        let c = criterion_copy_call(&s.new_rule_id, &s.items[j]);
        s.next = j;
        s.phase = DupRulePhase::CopyCriteria;
        Step::Call(s, c)
    } else {
        let items: Vec<Json> = Vec::new();
        assert(view_items(items@) =~= Seq::<JsonV>::empty());
        s.items = items;
        s.next = 0;
        s.phase = DupRulePhase::ActionsList;
        let c = get(path_id_suffix("/Rule/", s.source_rule_id, "/RuleAction"));
        Step::Call(s, c)
    }
}

fn dup_after_actions(s: DupRuleState, from: usize) -> (r: Step<DupRuleState, String>)
    requires
        from <= s.items.len(),
        s.actions_copied <= from,
    ensures
        dup_rule_step_view(r) == after_actions(dup_rule_view(s), from as int),
        r matches Step::Call(st, _) ==> dup_rule_wf(dup_rule_view(st)),
{
    let mut s = s;
    let j = next_with_text_exec(&s.items, "field", from);
    proof {
        lemma_next_with_text_bounds(view_items(s.items@), "field"@, from as int);
    }
    if j < s.items.len() {
        let c = action_copy_call(&s.new_rule_id, &s.overrides, &s.items[j]);
        s.next = j;
        s.phase = DupRulePhase::CopyActions;
        Step::Call(s, c)
    } else {
        let n = s.actions_copied;
        Step::Done(Ok(dup_rule_report(&s, n)))
    }
}

/// The step after a reply in a rule duplication.
pub fn duplicate_rule_next(s: DupRuleState, reply: Result<Json, GlpiError>) -> (r: Step<DupRuleState, String>)
    requires
        dup_rule_wf(dup_rule_view(s)),
    ensures
        dup_rule_step_view(r) == dup_rule_next_spec(dup_rule_view(s), reply_view(reply)),
        r matches Step::Call(st, _) ==> dup_rule_wf(dup_rule_view(st)),
{
    let v = match reply {
        Err(e) => return Step::Done(Err(e.message())),
        Ok(v) => v,
    };
    let mut s = s;
    match s.phase {
        DupRulePhase::Source => {
            let mut m: Vec<(String, Json)> = Vec::new();
            push_member(&mut m, "name", Json::Str(copy_string(&s.new_name)));
            push_member(&mut m, "sub_type", get_or_exec(&v, "sub_type", jtext("")));
            push_member(&mut m, "match", get_or_exec(&v, "match", jtext("AND")));
            push_member(&mut m, "is_active", jint(1));
            push_member(&mut m, "entities_id", get_or_exec(&v, "entities_id", jint(0)));
            proof {
                reveal_strlit("");
            }
            let ghost mv = view_members(m@);
            assert(mv =~= seq![
                ("name"@, JsonV::Str(s.new_name@)),
                ("sub_type"@, get_or(v@, "sub_type"@, JsonV::Str(""@))),
                ("match"@, get_or(v@, "match"@, JsonV::Str("AND"@))),
                ("is_active"@, JsonV::Int(1)),
                ("entities_id"@, get_or(v@, "entities_id"@, JsonV::Int(0))),
            ]);
            let c = post(owned("/Rule"), input_of(Json::Object(m)));
            s.phase = DupRulePhase::Create;
            Step::Call(s, c)
        },
        DupRulePhase::Create => {
            s.new_rule_id = id_field(&v, "id");
            s.phase = DupRulePhase::CriteriaList;
            let c = get(path_id_suffix("/Rule/", s.source_rule_id, "/RuleCriteria"));
            Step::Call(s, c)
        },
        DupRulePhase::CriteriaList => {
            s.items = into_array(v);
            dup_after_criteria(s, 0)
        },
        DupRulePhase::CopyCriteria => {
            assert(s.next < s.items.len());
            s.criteria_copied = s.criteria_copied + 1;
            let from = s.next + 1;
            s.phase = DupRulePhase::CriteriaList;
            let r = dup_after_criteria(s, from);
            r
        },
        DupRulePhase::ActionsList => {
            s.items = into_array(v);
            dup_after_actions(s, 0)
        },
        DupRulePhase::CopyActions => {
            assert(s.next < s.items.len());
            s.actions_copied = s.actions_copied + 1;
            let from = s.next + 1;
            s.phase = DupRulePhase::ActionsList;
            dup_after_actions(s, from)
        },
    }
}

pub struct UpdateRuleActionParams {
    pub rule_action_id: i64,
    /// New value, e.g. the replacement group ID as a string.
    pub value: String,
}

/// Sets the value of a rule action.
pub fn update_rule_action_call(p: &UpdateRuleActionParams) -> (c: Call)
    ensures
        crate::call::call_view(c) == put_v(
            "/RuleAction/"@ + int_text(p.rule_action_id as int),
            single("input"@, single("value"@, JsonV::Str(p.value@))),
        ),
{
    let mut m: Vec<(String, Json)> = Vec::new();
    push_member(&mut m, "value", Json::Str(copy_string(&p.value)));
    assert(view_members(m@) =~= seq![("value"@, JsonV::Str(p.value@))]);
    put(path_id("/RuleAction/", p.rule_action_id), input_of(Json::Object(m)))
}

/// The answer to an update of a rule action.
pub fn update_rule_action_answer(p: &UpdateRuleActionParams, r: Result<Json, GlpiError>) -> (out: Result<String, String>)
    ensures
        text_out_view(out) == text_answer_spec(reply_view(r), "RuleAction #"@ + int_text(p.rule_action_id as int) + " updated."@),
{
    text_answer(r, id_message("RuleAction #", p.rule_action_id, " updated."))
}

pub struct FindRulesParams {
    /// Rule name to search for (case-insensitive, partial match).
    pub name: String,
    /// Filter by rule sub_type, e.g. "RuleTicket"; none to search all.
    pub sub_type: Option<String>,
}

/// The search of rules by name, and by sub type when one is given.
pub open spec fn find_rules_v(name: Seq<char>, sub_type: Option<Seq<char>>) -> CallV {
    let base = seq![
        ("criteria[0][field]"@, "1"@),
        ("criteria[0][searchtype]"@, "contains"@),
        ("criteria[0][value]"@, name),
        ("forcedisplay[0]"@, "2"@),
        ("forcedisplay[1]"@, "1"@),
        ("forcedisplay[2]"@, "8"@),
    ];
    get_q_v("/search/Rule"@, match sub_type {
        Some(t) => base + seq![
            ("criteria[1][link]"@, "AND"@),
            ("criteria[1][field]"@, "122"@),
            ("criteria[1][searchtype]"@, "contains"@),
            ("criteria[1][value]"@, t),
        ],
        None => base,
    })
}

/// Searches rules by name, optionally by sub type.
pub fn find_rules_call(p: &FindRulesParams) -> (c: Call)
    ensures
        crate::call::call_view(c) == find_rules_v(p.name@, crate::config::opt_string_view(p.sub_type)),
{
    let mut q: Vec<(String, String)> = Vec::new();
    push_param(&mut q, "criteria[0][field]", owned("1"));
    push_param(&mut q, "criteria[0][searchtype]", owned("contains"));
    push_param(&mut q, "criteria[0][value]", copy_string(&p.name));
    push_param(&mut q, "forcedisplay[0]", owned("2"));
    push_param(&mut q, "forcedisplay[1]", owned("1"));
    push_param(&mut q, "forcedisplay[2]", owned("8"));
    let ghost base = pairs_view(q@);
    match &p.sub_type {
        Some(t) => {
            push_param(&mut q, "criteria[1][link]", owned("AND"));
            push_param(&mut q, "criteria[1][field]", owned("122"));
            push_param(&mut q, "criteria[1][searchtype]", owned("contains"));
            push_param(&mut q, "criteria[1][value]", copy_string(t));
            assert(pairs_view(q@) =~= base + seq![
                ("criteria[1][link]"@, "AND"@),
                ("criteria[1][field]"@, "122"@),
                ("criteria[1][searchtype]"@, "contains"@),
                ("criteria[1][value]"@, t@),
            ]);
        },
        None => {},
    }
    assert(base =~= seq![
        ("criteria[0][field]"@, "1"@),
        ("criteria[0][searchtype]"@, "contains"@),
        ("criteria[0][value]"@, p.name@),
        ("forcedisplay[0]"@, "2"@),
        ("forcedisplay[1]"@, "1"@),
        ("forcedisplay[2]"@, "8"@),
    ]);
    get_query(owned("/search/Rule"), q)
}

/// A found rule's row: id, name, whether it is active.
pub open spec fn find_rules_row(row: JsonV) -> Seq<Seq<char>> {
    seq![rule_id_of(row), escape_cell_spec(str_field_spec(row, "1"@)), yes_no(rule_active(row))]
}

fn find_rules_row_exec(row: &Json) -> (r: Vec<String>)
    ensures
        crate::markdown::strings_view(r@) == find_rules_row(row@),
{
    let active = match row.get_i64("8") {
        Some(n) => n == 1,
        None => false,
    };
    let mut r: Vec<String> = Vec::new();
    r.push(id_field(row, "2"));
    r.push(escape_cell(str_field(row, "1").as_str()));
    r.push(yes_no_exec(active));
    assert(crate::markdown::strings_view(r@) =~= find_rules_row(row@));
    r
}

/// The answer to a rule search: a table of the rules found.
pub open spec fn find_rules_text(v: JsonV) -> Seq<char> {
    let items = data_items(v);
    if items.len() == 0 {
        "No matching rules."@
    } else {
        counted_table_spec(items.len() as int, " rule(s) found"@, seq!["ID"@, "Name"@, "Active"@], items.map_values(|r: JsonV| find_rules_row(r)))
    }
}

/// The answer to a rule search.
pub fn find_rules_answer(r: Result<Json, GlpiError>) -> (out: Result<String, String>)
    ensures
        text_out_view(out) == map_ok(reply_view(r), |v: JsonV| find_rules_text(v)),
{
    let v = match r {
        Ok(v) => v,
        Err(e) => return Err(e.message()),
    };
    let items = data_rows(&v);
    if items.len() == 0 {
        return Ok(owned("No matching rules."));
    }
    let rows = build_rows(&items, find_rules_row_exec);
    let headers = ["ID", "Name", "Active"];
    proof {
        assert(rows_view(rows@) =~= view_items(items@).map_values(|r: JsonV| find_rules_row(r)));
        assert(strs_view(headers@) =~= seq!["ID"@, "Name"@, "Active"@]);
    }
    Ok(counted_table(items.len(), " rule(s) found", &headers, &rows))
}

pub struct CreateRuleParams {
    pub name: String,
    /// e.g. "RuleTicket".
    pub sub_type: String,
    /// "AND" or "OR": how criteria combine.
    pub rule_match: String,
    pub is_active: bool,
    pub description: Option<String>,
    /// Owning entity ID (0 = root entity).
    pub entities_id: i64,
}

/// The body creating a rule.
pub open spec fn create_rule_input(p: CreateRuleParams) -> JsonV {
    let base = seq![
        ("name"@, JsonV::Str(p.name@)),
        ("sub_type"@, JsonV::Str(p.sub_type@)),
        ("match"@, JsonV::Str(p.rule_match@)),
        ("is_active"@, flag(p.is_active)),
        ("entities_id"@, JsonV::Int(p.entities_id as int)),
    ];
    JsonV::Object(match p.description {
        Some(d) => base.push(("description"@, JsonV::Str(d@))),
        None => base,
    })
}

/// Creates a rule, with no criteria and no actions yet.
pub fn create_rule_call(p: &CreateRuleParams) -> (c: Call)
    ensures
        crate::call::call_view(c) == post_v("/Rule"@, single("input"@, create_rule_input(*p))),
{
    let mut m: Vec<(String, Json)> = Vec::new();
    push_member(&mut m, "name", Json::Str(copy_string(&p.name)));
    push_member(&mut m, "sub_type", Json::Str(copy_string(&p.sub_type)));
    push_member(&mut m, "match", Json::Str(copy_string(&p.rule_match)));
    push_member(&mut m, "is_active", jflag(p.is_active));
    push_member(&mut m, "entities_id", jint(p.entities_id));
    let ghost base = view_members(m@);
    match &p.description {
        Some(d) => push_member(&mut m, "description", Json::Str(copy_string(d))),
        None => {},
    }
    assert(base =~= seq![
        ("name"@, JsonV::Str(p.name@)),
        ("sub_type"@, JsonV::Str(p.sub_type@)),
        ("match"@, JsonV::Str(p.rule_match@)),
        ("is_active"@, flag(p.is_active)),
        ("entities_id"@, JsonV::Int(p.entities_id as int)),
    ]);
    post(owned("/Rule"), input_of(Json::Object(m)))
}

/// The answer to a rule creation.
pub fn create_rule_answer(p: &CreateRuleParams, r: Result<Json, GlpiError>) -> (out: Result<String, String>)
    ensures
        text_out_view(out) == created_spec(reply_view(r), "Rule #"@, quoted_created(p.name@)),
{
    created_answer(r, "Rule #", quoted_created_exec(&p.name))
}

pub struct UpdateRuleParams {
    pub rule_id: i64,
    /// Fields to change, e.g. name, is_active, match, ranking.
    pub update_fields: Vec<(String, Json)>,
}

/// Writes the given fields of a rule.
pub fn update_rule_call(p: &UpdateRuleParams) -> (c: Call)
    ensures
        crate::call::call_view(c) == put_v(
            "/Rule/"@ + int_text(p.rule_id as int),
            single("input"@, JsonV::Object(view_members(p.update_fields@))),
        ),
{
    put(path_id("/Rule/", p.rule_id), input_of(Json::Object(copy_members(&p.update_fields))))
}

/// The answer to a rule update.
pub fn update_rule_answer(p: &UpdateRuleParams, r: Result<Json, GlpiError>) -> (out: Result<String, String>)
    ensures
        text_out_view(out) == text_answer_spec(reply_view(r), "Rule #"@ + int_text(p.rule_id as int) + " updated."@),
{
    text_answer(r, id_message("Rule #", p.rule_id, " updated."))
}

pub struct DeleteRuleParams {
    pub rule_id: i64,
}

/// Deletes a rule (GLPI removes its criteria and actions too).
pub fn delete_rule_call(p: &DeleteRuleParams) -> (c: Call)
    ensures
        crate::call::call_view(c) == delete_v("/Rule/"@ + int_text(p.rule_id as int)),
{
    delete(path_id("/Rule/", p.rule_id))
}

/// The answer to a rule deletion.
pub fn delete_rule_answer(p: &DeleteRuleParams, r: Result<Json, GlpiError>) -> (out: Result<String, String>)
    ensures
        text_out_view(out) == text_answer_spec(reply_view(r), "Rule #"@ + int_text(p.rule_id as int) + " deleted."@),
{
    text_answer(r, id_message("Rule #", p.rule_id, " deleted."))
}

pub struct RuleIdParams {
    pub rule_id: i64,
}

/// Reads the criteria of a rule.
pub fn list_rule_criteria_call(p: &RuleIdParams) -> (c: Call)
    ensures
        crate::call::call_view(c) == get_v("/Rule/"@ + int_text(p.rule_id as int) + "/RuleCriteria"@),
{
    get(path_id_suffix("/Rule/", p.rule_id, "/RuleCriteria"))
}

/// A criterion's row: id, field, condition, value.
pub open spec fn criterion_row(row: JsonV) -> Seq<Seq<char>> {
    seq![
        id_field_spec(row, "id"@),
        escape_cell_spec(str_field_spec(row, "criteria"@)),
        id_field_spec(row, "condition"@),
        escape_cell_spec(id_field_spec(row, "pattern"@)),
    ]
}

fn criterion_row_exec(row: &Json) -> (r: Vec<String>)
    ensures
        crate::markdown::strings_view(r@) == criterion_row(row@),
{
    let mut r: Vec<String> = Vec::new();
    r.push(id_field(row, "id"));
    r.push(escape_cell(str_field(row, "criteria").as_str()));
    r.push(id_field(row, "condition"));
    r.push(escape_cell(id_field(row, "pattern").as_str()));
    assert(crate::markdown::strings_view(r@) =~= criterion_row(row@));
    r
}

/// The table of a rule's criteria, or a note that it has none.
pub open spec fn criteria_text(rule_id: int, v: JsonV) -> Seq<char> {
    let items = crate::markdown::array_items(v);
    if items.len() == 0 {
        "Rule #"@ + int_text(rule_id) + " has no criteria."@
    } else {
        table_spec(seq!["ID"@, "Field"@, "Condition"@, "Value"@], items.map_values(|r: JsonV| criterion_row(r)))
    }
}

/// The answer listing a rule's criteria.
pub fn list_rule_criteria_answer(p: &RuleIdParams, r: Result<Json, GlpiError>) -> (out: Result<String, String>)
    ensures
        text_out_view(out) == map_ok(reply_view(r), |v: JsonV| criteria_text(p.rule_id as int, v)),
{
    let v = match r {
        Ok(v) => v,
        Err(e) => return Err(e.message()),
    };
    let items = into_array(v);
    let rows = build_rows(&items, criterion_row_exec);
    if rows.len() == 0 {
        return Ok(id_message("Rule #", p.rule_id, " has no criteria."));
    }
    let headers = ["ID", "Field", "Condition", "Value"];
    proof {
        assert(rows_view(rows@) =~= view_items(items@).map_values(|r: JsonV| criterion_row(r)));
        assert(strs_view(headers@) =~= seq!["ID"@, "Field"@, "Condition"@, "Value"@]);
    }
    Ok(table(&headers, rows.as_slice()))
}

/// Reads the actions of a rule.
pub fn list_rule_actions_call(p: &RuleIdParams) -> (c: Call)
    ensures
        crate::call::call_view(c) == get_v("/Rule/"@ + int_text(p.rule_id as int) + "/RuleAction"@),
{
    get(path_id_suffix("/Rule/", p.rule_id, "/RuleAction"))
}

/// An action's row: id, field, action type, value.
pub open spec fn action_row(row: JsonV) -> Seq<Seq<char>> {
    seq![
        id_field_spec(row, "id"@),
        escape_cell_spec(str_field_spec(row, "field"@)),
        escape_cell_spec(str_field_spec(row, "action_type"@)),
        escape_cell_spec(id_field_spec(row, "value"@)),
    ]
}

fn action_row_exec(row: &Json) -> (r: Vec<String>)
    ensures
        crate::markdown::strings_view(r@) == action_row(row@),
{
    let mut r: Vec<String> = Vec::new();
    r.push(id_field(row, "id"));
    r.push(escape_cell(str_field(row, "field").as_str()));
    r.push(escape_cell(str_field(row, "action_type").as_str()));
    r.push(escape_cell(id_field(row, "value").as_str()));
    assert(crate::markdown::strings_view(r@) =~= action_row(row@));
    r
}

/// The table of a rule's actions, or a note that it has none.
pub open spec fn actions_text(rule_id: int, v: JsonV) -> Seq<char> {
    let items = crate::markdown::array_items(v);
    if items.len() == 0 {
        "Rule #"@ + int_text(rule_id) + " has no actions."@
    } else {
        table_spec(seq!["ID"@, "Field"@, "Action type"@, "Value"@], items.map_values(|r: JsonV| action_row(r)))
    }
}

/// The answer listing a rule's actions.
pub fn list_rule_actions_answer(p: &RuleIdParams, r: Result<Json, GlpiError>) -> (out: Result<String, String>)
    ensures
        text_out_view(out) == map_ok(reply_view(r), |v: JsonV| actions_text(p.rule_id as int, v)),
{
    let v = match r {
        Ok(v) => v,
        Err(e) => return Err(e.message()),
    };
    let items = into_array(v);
    let rows = build_rows(&items, action_row_exec);
    if rows.len() == 0 {
        return Ok(id_message("Rule #", p.rule_id, " has no actions."));
    }
    let headers = ["ID", "Field", "Action type", "Value"];
    proof {
        assert(rows_view(rows@) =~= view_items(items@).map_values(|r: JsonV| action_row(r)));
        assert(strs_view(headers@) =~= seq!["ID"@, "Field"@, "Action type"@, "Value"@]);
    }
    Ok(table(&headers, rows.as_slice()))
}

pub struct CreateRuleCriteriaParams {
    pub rule_id: i64,
    /// Field name the criterion matches on, e.g. "category", "name".
    pub criteria: String,
    /// GLPI condition code, e.g. 0 = is, 1 = is not, 2 = contains.
    pub condition: i64,
    /// Value to match against.
    pub pattern: String,
}

/// Adds a criterion to a rule.
pub fn create_rule_criteria_call(p: &CreateRuleCriteriaParams) -> (c: Call)
    ensures
        crate::call::call_view(c) == post_v("/RuleCriteria"@, single("input"@, JsonV::Object(seq![
            ("rules_id"@, JsonV::Int(p.rule_id as int)),
            ("criteria"@, JsonV::Str(p.criteria@)),
            ("condition"@, JsonV::Int(p.condition as int)),
            ("pattern"@, JsonV::Str(p.pattern@)),
        ]))),
{
    let mut m: Vec<(String, Json)> = Vec::new();
    push_member(&mut m, "rules_id", jint(p.rule_id));
    push_member(&mut m, "criteria", Json::Str(copy_string(&p.criteria)));
    push_member(&mut m, "condition", jint(p.condition));
    push_member(&mut m, "pattern", Json::Str(copy_string(&p.pattern)));
    assert(view_members(m@) =~= seq![
        ("rules_id"@, JsonV::Int(p.rule_id as int)),
        ("criteria"@, JsonV::Str(p.criteria@)),
        ("condition"@, JsonV::Int(p.condition as int)),
        ("pattern"@, JsonV::Str(p.pattern@)),
    ]);
    post(owned("/RuleCriteria"), input_of(Json::Object(m)))
}

/// The answer to a criterion's creation.
pub fn create_rule_criteria_answer(p: &CreateRuleCriteriaParams, r: Result<Json, GlpiError>) -> (out: Result<String, String>)
    ensures
        text_out_view(out) == created_spec(reply_view(r), "RuleCriteria #"@, " added to rule #"@ + int_text(p.rule_id as int) + "."@),
{
    created_answer(r, "RuleCriteria #", id_message(" added to rule #", p.rule_id, "."))
}

pub struct UpdateRuleCriteriaParams {
    pub rule_criteria_id: i64,
    /// Fields to change, e.g. criteria, condition, pattern.
    pub update_fields: Vec<(String, Json)>,
}

/// Writes the given fields of a criterion.
pub fn update_rule_criteria_call(p: &UpdateRuleCriteriaParams) -> (c: Call)
    ensures
        crate::call::call_view(c) == put_v(
            "/RuleCriteria/"@ + int_text(p.rule_criteria_id as int),
            single("input"@, JsonV::Object(view_members(p.update_fields@))),
        ),
{
    put(path_id("/RuleCriteria/", p.rule_criteria_id), input_of(Json::Object(copy_members(&p.update_fields))))
}

/// The answer to a criterion's update.
pub fn update_rule_criteria_answer(p: &UpdateRuleCriteriaParams, r: Result<Json, GlpiError>) -> (out: Result<String, String>)
    ensures
        text_out_view(out) == text_answer_spec(reply_view(r), "RuleCriteria #"@ + int_text(p.rule_criteria_id as int) + " updated."@),
{
    text_answer(r, id_message("RuleCriteria #", p.rule_criteria_id, " updated."))
}

pub struct DeleteRuleCriteriaParams {
    pub rule_criteria_id: i64,
}

/// Deletes a criterion.
pub fn delete_rule_criteria_call(p: &DeleteRuleCriteriaParams) -> (c: Call)
    ensures
        crate::call::call_view(c) == delete_v("/RuleCriteria/"@ + int_text(p.rule_criteria_id as int)),
{
    delete(path_id("/RuleCriteria/", p.rule_criteria_id))
}

/// The answer to a criterion's deletion.
pub fn delete_rule_criteria_answer(p: &DeleteRuleCriteriaParams, r: Result<Json, GlpiError>) -> (out: Result<String, String>)
    ensures
        text_out_view(out) == text_answer_spec(reply_view(r), "RuleCriteria #"@ + int_text(p.rule_criteria_id as int) + " deleted."@),
{
    text_answer(r, id_message("RuleCriteria #", p.rule_criteria_id, " deleted."))
}

pub struct CreateRuleActionParams {
    pub rule_id: i64,
    /// e.g. "assign", "append", "fromuser".
    pub action_type: String,
    /// Field the action sets, e.g. "groups_id_assign", "slas_id_ttr".
    pub field: String,
    /// Value to assign, e.g. a group/SLA ID as a string.
    pub value: String,
}

/// Adds an action to a rule.
pub fn create_rule_action_call(p: &CreateRuleActionParams) -> (c: Call)
    ensures
        crate::call::call_view(c) == post_v("/RuleAction"@, single("input"@, JsonV::Object(seq![
            ("rules_id"@, JsonV::Int(p.rule_id as int)),
            ("action_type"@, JsonV::Str(p.action_type@)),
            ("field"@, JsonV::Str(p.field@)),
            ("value"@, JsonV::Str(p.value@)),
        ]))),
{
    let mut m: Vec<(String, Json)> = Vec::new();
    push_member(&mut m, "rules_id", jint(p.rule_id));
    push_member(&mut m, "action_type", Json::Str(copy_string(&p.action_type)));
    push_member(&mut m, "field", Json::Str(copy_string(&p.field)));
    push_member(&mut m, "value", Json::Str(copy_string(&p.value)));
    assert(view_members(m@) =~= seq![
        ("rules_id"@, JsonV::Int(p.rule_id as int)),
        ("action_type"@, JsonV::Str(p.action_type@)),
        ("field"@, JsonV::Str(p.field@)),
        ("value"@, JsonV::Str(p.value@)),
    ]);
    post(owned("/RuleAction"), input_of(Json::Object(m)))
}

/// The answer to an action's creation.
pub fn create_rule_action_answer(p: &CreateRuleActionParams, r: Result<Json, GlpiError>) -> (out: Result<String, String>)
    ensures
        text_out_view(out) == created_spec(reply_view(r), "RuleAction #"@, " added to rule #"@ + int_text(p.rule_id as int) + "."@),
{
    created_answer(r, "RuleAction #", id_message(" added to rule #", p.rule_id, "."))
}

pub struct DeleteRuleActionParams {
    pub rule_action_id: i64,
}

/// Deletes an action.
pub fn delete_rule_action_call(p: &DeleteRuleActionParams) -> (c: Call)
    ensures
        crate::call::call_view(c) == delete_v("/RuleAction/"@ + int_text(p.rule_action_id as int)),
{
    delete(path_id("/RuleAction/", p.rule_action_id))
}

/// The answer to an action's deletion.
pub fn delete_rule_action_answer(p: &DeleteRuleActionParams, r: Result<Json, GlpiError>) -> (out: Result<String, String>)
    ensures
        text_out_view(out) == text_answer_spec(reply_view(r), "RuleAction #"@ + int_text(p.rule_action_id as int) + " deleted."@),
{
    text_answer(r, id_message("RuleAction #", p.rule_action_id, " deleted."))
}

} // verus!
