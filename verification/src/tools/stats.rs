//! Ticket statistics, computed from the rows of GLPI's ticket search.
use vstd::prelude::*;
use std::collections::HashMap;
use crate::call::{get_q_v, get_query, pairs_view, push_param, Call, CallV};
use crate::error::GlpiError;
use crate::json::{copy_string, jget, owned, view_items, Json, JsonV};
use crate::html::{digit_value, digits_value};
use crate::step::{reply_view, Step, StepV};
use crate::text::{chars_of, extend_str, int_text, push_int, slice_chars, string_of};
use crate::tools::tickets::{range_fits, range_text};
use crate::counts::{counts_text, lemma_ranked, lemma_seed_labels, lemma_sort_lists, ranked, render_counts, seed_from_table, sort_tallies, tallies_view, tally_labels, tally_map, labels_of};
use crate::labels::{labels_view, lookup, lookup_spec, table_view, Labels, LabelsView};
use crate::text::{chars_view, split_trimmed, trim, trim_ws, trimmed_parts, split_on};

verus! {

broadcast use vstd::string::group_string_axioms;

/// The number of rows asked for per page.
pub open spec fn page_size() -> int {
    500
}

/// A GLPI date-time (`%Y-%m-%d %H:%M:%S`) as chrono's parser reads it, or `None` when the
/// text is no such date-time: the whole seconds since 1970-01-01 00:00:00 (read as UTC), and
/// the nanoseconds past them, which reach 1_000_000_000 only within a leap second (`:60`).
pub uninterp spec fn glpi_datetime(s: Seq<char>) -> Option<(int, int)>;

/// Calls `chrono::NaiveDateTime::parse_from_str` with GLPI's format, and gives the parsed
/// time as its `timestamp` and `timestamp_subsec_nanos`; the result is named by
/// `glpi_datetime`.
#[verifier::external_body]
pub(crate) fn parse_glpi_datetime(value: &str) -> (r: Option<(i64, u32)>)
    ensures
        match r {
            Some(t) => glpi_datetime(value@) == Some((t.0 as int, t.1 as int)),
            None => glpi_datetime(value@) is None,
        },
{
    match chrono::NaiveDateTime::parse_from_str(value, "%Y-%m-%d %H:%M:%S") {
        Ok(d) => Some((d.and_utc().timestamp(), d.and_utc().timestamp_subsec_nanos())),
        Err(_) => None,
    }
}

/// `a` comes before `b`, as chrono orders date-times: by seconds, then by the nanoseconds
/// past them.
pub open spec fn instant_before(a: (int, int), b: (int, int)) -> bool {
    a.0 < b.0 || (a.0 == b.0 && a.1 < b.1)
}

/// The whole seconds from `earlier` to `later`, as chrono's `(later - earlier).num_seconds()`
/// counts them: a leap second counts only where the span runs over it, and a negative span
/// is cut toward zero.
pub open spec fn elapsed_seconds(later: (int, int), earlier: (int, int)) -> int {
    let day_l = later.0 % 86400;
    let day_e = earlier.0 % 86400;
    let leap = if day_l > day_e && earlier.1 >= 1_000_000_000 {
        1int
    } else if day_l < day_e && later.1 >= 1_000_000_000 {
        -1int
    } else {
        0int
    };
    let frac = later.1 - earlier.1;
    let secs = later.0 - earlier.0 + leap + frac / 1_000_000_000;
    let nanos = frac % 1_000_000_000;
    if secs < 0 && nanos > 0 { secs + 1 } else { secs }
}

/// `x` divided by `m` and the remainder, both as spec `/` and `%` take them: the quotient
/// rounded down and the remainder in `[0, m)`.
fn div_mod_euclid(x: i128, m: i128) -> (qr: (i128, i128))
    requires
        0 < m < 0x1_0000_0000_0000_0000,
        -0x1_0000_0000_0000_0000_0000 < x < 0x1_0000_0000_0000_0000_0000,
    ensures
        qr.0 == (x as int) / (m as int),
        qr.1 == (x as int) % (m as int),
{
    if x >= 0 {
        let a = x as u128;
        let d = m as u128;
        let q = a / d;
        let r = a % d;
        proof {
            vstd::arithmetic::div_mod::lemma_fundamental_div_mod(a as int, d as int);
            vstd::arithmetic::div_mod::lemma_mod_bound(a as int, d as int);
            vstd::arithmetic::div_mod::lemma_div_is_ordered_by_denominator(a as int, 1, d as int);
        }
        (q as i128, r as i128)
    } else {
        let a = (-(x + 1)) as u128;
        let d = m as u128;
        let q1 = a / d;
        let s = a % d;
        proof {
            vstd::arithmetic::div_mod::lemma_fundamental_div_mod(a as int, d as int);
            vstd::arithmetic::div_mod::lemma_mod_bound(a as int, d as int);
            vstd::arithmetic::div_mod::lemma_div_is_ordered_by_denominator(a as int, 1, d as int);
        }
        let q = -(q1 as i128) - 1;
        let r = m - 1 - s as i128;
        proof {
            let qi = q as int;
            let mi = m as int;
            let q1i = q1 as int;
            assert(qi * mi == -(mi * q1i) - mi) by (nonlinear_arith)
                requires
                    qi == -q1i - 1,
            ;
            vstd::arithmetic::div_mod::lemma_fundamental_div_mod_converse(x as int, mi, qi, r as int);
        }
        (q, r)
    }
}

/// Whether `a` comes before `b`.
fn instant_before_exec(a: (i64, u32), b: (i64, u32)) -> (r: bool)
    ensures
        r == instant_before((a.0 as int, a.1 as int), (b.0 as int, b.1 as int)),
{
    a.0 < b.0 || (a.0 == b.0 && a.1 < b.1)
}

/// The whole seconds from `earlier` to `later`.
pub fn elapsed(later: (i64, u32), earlier: (i64, u32)) -> (r: i128)
    ensures
        r == elapsed_seconds((later.0 as int, later.1 as int), (earlier.0 as int, earlier.1 as int)),
{
    let day_l = div_mod_euclid(later.0 as i128, 86400).1;
    let day_e = div_mod_euclid(earlier.0 as i128, 86400).1;
    let leap: i128 = if day_l > day_e && earlier.1 >= 1_000_000_000 {
        1
    } else if day_l < day_e && later.1 >= 1_000_000_000 {
        -1
    } else {
        0
    };
    let frac = later.1 as i128 - earlier.1 as i128;
    let (whole, nanos) = div_mod_euclid(frac, 1_000_000_000);
    let secs = later.0 as i128 - earlier.0 as i128 + leap + whole;
    if secs < 0 && nanos > 0 { secs + 1 } else { secs }
}

/// What `i64::from_str` gives for `s`: an optional sign, then at least one digit, and a
/// value in range.
pub open spec fn parse_i64_spec(s: Seq<char>) -> Option<int> {
    let neg = s.len() > 0 && s[0] == '-';
    let body = if s.len() > 0 && (s[0] == '+' || s[0] == '-') {
        s.drop_first()
    } else {
        s
    };
    if body.len() == 0 {
        None
    } else {
        match digits_value(body, 10) {
            Some(v) => {
                let n = if neg { -v } else { v };
                if i64::MIN <= n <= i64::MAX {
                    Some(n)
                } else {
                    None
                }
            },
            None => None,
        }
    }
}

proof fn lemma_digits_nonneg(s: Seq<char>)
    ensures
        digits_value(s, 10) matches Some(v) ==> v >= 0,
    decreases s.len(),
{
    if s.len() > 0 {
        lemma_digits_nonneg(s.drop_last());
    }
}

proof fn lemma_digits_prefix_bound(s: Seq<char>, k: int)
    requires
        0 <= k <= s.len(),
        digits_value(s, 10) is Some,
    ensures
        digits_value(s.take(k), 10) is Some,
        digits_value(s.take(k), 10).unwrap() <= digits_value(s, 10).unwrap(),
    decreases s.len(),
{
    if k < s.len() {
        lemma_digits_nonneg(s.drop_last());
        assert(s.drop_last().take(k) =~= s.take(k));
        lemma_digits_prefix_bound(s.drop_last(), k);
    } else {
        assert(s.take(k) =~= s);
    }
}

proof fn lemma_bad_prefix(s: Seq<char>, k: int)
    requires
        0 <= k <= s.len(),
        digits_value(s.take(k), 10) is None,
    ensures
        digits_value(s, 10) is None,
    decreases s.len() - k,
{
    if k < s.len() {
        assert(s.take(k + 1).drop_last() =~= s.take(k));
        lemma_bad_prefix(s, k + 1);
    } else {
        assert(s.take(k) =~= s);
    }
}

/// Parses `s` as `i64::from_str` does.
pub fn parse_i64(s: &[char]) -> (r: Option<i64>)
    ensures
        match r {
            Some(n) => parse_i64_spec(s@) == Some(n as int),
            None => parse_i64_spec(s@) is None,
        },
{
    let neg = s.len() > 0 && s[0] == '-';
    let start: usize = if s.len() > 0 && (s[0] == '+' || s[0] == '-') { 1 } else { 0 };
    let ghost body = if s@.len() > 0 && (s@[0] == '+' || s@[0] == '-') { s@.drop_first() } else { s@ };
    assert(body =~= s@.subrange(start as int, s.len() as int));
    if start >= s.len() {
        return None;
    }
    // The magnitude, kept below 2^63 + 1 so that it fits in a u64.
    let mut acc: u64 = 0;
    let mut i = start;
    while i < s.len()
        invariant
            start <= i <= s.len(),
            start < s.len(),
            body == s@.subrange(start as int, s.len() as int),
            body == (if s@.len() > 0 && (s@[0] == '+' || s@[0] == '-') { s@.drop_first() } else { s@ }),
            body.len() > 0,
            neg == (s@.len() > 0 && s@[0] == '-'),
            digits_value(body.take(i - start), 10) == Some(acc as int),
            acc <= 9223372036854775808,
        decreases s.len() - i,
    {
        assert(body.take(i + 1 - start).drop_last() =~= body.take(i - start));
        assert(body.take(i + 1 - start).last() == s@[i as int]);
        let c = s[i];
        if !('0' <= c && c <= '9') {
            proof {
                assert(digit_value(c, 10) is None);
                assert(digits_value(body.take(i + 1 - start), 10) is None);
                lemma_bad_prefix(body, i + 1 - start);
            }
            return None;
        }
        let d = (c as u32 - '0' as u32) as u64;
        assert(digit_value(c, 10) == Some(d as u32));
        if acc > (9223372036854775808u64 - d) / 10 {
            proof {
                let v = acc * 10 + d;
                assert(v > 9223372036854775808int) by (nonlinear_arith)
                    requires
                        acc > (9223372036854775808int - d) / 10,
                        0 <= d <= 9,
                        v == acc * 10 + d,
                ;
                assert(digits_value(body.take(i + 1 - start), 10) == Some(v));
                if digits_value(body, 10) is Some {
                    lemma_digits_prefix_bound(body, i + 1 - start);
                }
            }
            return None;
        }
        acc = acc * 10 + d;
        i = i + 1;
    }
    assert(body.take(s.len() - start) =~= body);
    if neg {
        if acc <= 9223372036854775808 {
            if acc == 9223372036854775808 {
                Some(i64::MIN)
            } else {
                Some(-(acc as i64))
            }
        } else {
            None
        }
    } else {
        if acc <= 9223372036854775807 {
            Some(acc as i64)
        } else {
            None
        }
    }
}

/// A search row's field as text (a string value), as `field` reads it.
pub open spec fn field_spec(row: JsonV, id: Seq<char>) -> Option<Seq<char>> {
    match jget(row, id) {
        Some(JsonV::Str(s)) => Some(s),
        _ => None,
    }
}

/// A search row's field as an integer: a number, or a string that spells one.
pub open spec fn field_i64_spec(row: JsonV, id: Seq<char>) -> Option<int> {
    match jget(row, id) {
        Some(JsonV::Int(n)) => if i64::MIN <= n <= i64::MAX { Some(n) } else { None },
        Some(JsonV::Str(s)) => parse_i64_spec(s),
        _ => None,
    }
}

/// Reads a search row's field as text.
pub fn field<'a>(row: &'a Json, id: &str) -> (r: Option<&'a String>)
    ensures
        match r {
            Some(s) => field_spec(row@, id@) == Some(s@),
            None => field_spec(row@, id@) is None,
        },
{
    match row.get(id) {
        Some(Json::Str(s)) => Some(s),
        _ => None,
    }
}

/// Reads a search row's field as an integer, accepting a number or a numeric string (GLPI
/// writes the same enum field either way depending on what else is asked alongside it).
pub fn field_i64(row: &Json, id: &str) -> (r: Option<i64>)
    ensures
        match r {
            Some(n) => field_i64_spec(row@, id@) == Some(n as int),
            None => field_i64_spec(row@, id@) is None,
        },
{
    match row.get(id) {
        Some(Json::Int(n)) => if i64::MIN as i128 <= *n && *n <= i64::MAX as i128 {
            Some(*n as i64)
        } else {
            None
        },
        Some(Json::Str(s)) => {
            let c = chars_of(s.as_str());
            parse_i64(c.as_slice())
        },
        _ => None,
    }
}

/// Where the paged reading of ticket rows stands.
pub struct RowsState {
    pub fields: Vec<String>,
    pub offset: i64,
    pub rows: Vec<Json>,
}

pub struct RowsStateV {
    pub fields: Seq<Seq<char>>,
    pub offset: int,
    pub rows: Seq<JsonV>,
}

pub open spec fn rows_state_view(s: RowsState) -> RowsStateV {
    RowsStateV { fields: crate::markdown::strings_view(s.fields@), offset: s.offset as int, rows: view_items(s.rows@) }
}

pub open spec fn rows_step_view(s: Step<RowsState, Vec<Json>>) -> StepV<RowsStateV, Seq<JsonV>> {
    match s {
        Step::Call(st, c) => StepV::Call(rows_state_view(st), crate::call::call_view(c)),
        Step::Done(Ok(v)) => StepV::Done(Ok(view_items(v@))),
        Step::Done(Err(e)) => StepV::Done(Err(e@)),
    }
}

/// The `forcedisplay` parameters asking for the given fields.
pub open spec fn display_params(fields: Seq<Seq<char>>) -> Seq<(Seq<char>, Seq<char>)>
    decreases fields.len(),
{
    if fields.len() == 0 {
        Seq::empty()
    } else {
        display_params(fields.drop_last()).push(("forcedisplay["@ + int_text(fields.len() - 1) + "]"@, fields.last()))
    }
}

/// The search for one page of rows, from `offset`.
pub open spec fn page_v(fields: Seq<Seq<char>>, offset: int) -> CallV {
    get_q_v("/search/Ticket"@, seq![("range"@, range_text(offset, page_size()))] + display_params(fields))
}

/// The rows of a page reply (its `data` array; none when there is no such array).
pub open spec fn page_rows(v: JsonV) -> Seq<JsonV> {
    crate::tools::common::data_items(v)
}

/// The first step: ask for the first page.
pub open spec fn rows_start_spec(fields: Seq<Seq<char>>) -> StepV<RowsStateV, Seq<JsonV>> {
    StepV::Call(RowsStateV { fields, offset: 0, rows: Seq::empty() }, page_v(fields, 0))
}

/// The step after a page: a full page asks for the next one, a shorter page ends the
/// reading with all the rows read.
pub open spec fn rows_next_spec(s: RowsStateV, reply: Result<JsonV, Seq<char>>) -> StepV<RowsStateV, Seq<JsonV>> {
    match reply {
        Err(e) => StepV::Done(Err(e)),
        Ok(v) => {
            let data = page_rows(v);
            let rows = s.rows + data;
            if data.len() < page_size() {
                StepV::Done(Ok(rows))
            } else {
                StepV::Call(RowsStateV { offset: s.offset + page_size(), rows, ..s }, page_v(s.fields, s.offset + page_size()))
            }
        },
    }
}

fn page_call(fields: &Vec<String>, offset: i64) -> (c: Call)
    requires
        range_fits(offset as int, page_size()),
    ensures
        crate::call::call_view(c) == page_v(crate::markdown::strings_view(fields@), offset as int),
{
    let mut q: Vec<(String, String)> = Vec::new();
    push_param(&mut q, "range", crate::tools::tickets::range_string(offset, 500));
    let ghost head = pairs_view(q@);
    let mut i: usize = 0;
    while i < fields.len()
        invariant
            i <= fields.len(),
            pairs_view(q@) == head + display_params(crate::markdown::strings_view(fields@).take(i as int)),
        decreases fields.len() - i,
    {
        let ghost f = crate::markdown::strings_view(fields@);
        assert(f.take(i + 1).drop_last() =~= f.take(i as int));
        let mut k: Vec<char> = Vec::new();
        extend_str(&mut k, "forcedisplay[");
        push_int(&mut k, i as i128);
        extend_str(&mut k, "]");
        push_param(&mut q, string_of(k.as_slice()).as_str(), copy_string(&fields[i]));
        i = i + 1;
        assert(pairs_view(q@) =~= head + display_params(f.take(i as int)));
    }
    assert(crate::markdown::strings_view(fields@).take(fields.len() as int) =~= crate::markdown::strings_view(fields@));
    assert(head =~= seq![("range"@, range_text(offset as int, page_size()))]);
    get_query(owned("/search/Ticket"), q)
}

/// Starts reading every ticket's given search fields, page by page.
pub fn fetch_ticket_rows_start(fields: &[&str]) -> (r: Step<RowsState, Vec<Json>>)
    ensures
        rows_step_view(r) == rows_start_spec(crate::markdown::strs_view(fields@)),
{
    let mut fs: Vec<String> = Vec::new();
    let mut i: usize = 0;
    while i < fields.len()
        invariant
            i <= fields.len(),
            crate::markdown::strings_view(fs@) == crate::markdown::strs_view(fields@).take(i as int),
        decreases fields.len() - i,
    {
        let f = owned(fields[i]);
        let ghost old_fs = fs@;
        assert(f@ == crate::markdown::strs_view(fields@)[i as int]);
        fs.push(f);
        assert(fs@ == old_fs.push(f));
        assert(crate::markdown::strings_view(fs@) =~= crate::markdown::strings_view(old_fs).push(f@));
        assert(crate::markdown::strs_view(fields@).take(i + 1) =~= crate::markdown::strs_view(fields@).take(i as int).push(f@));
        i = i + 1;
    }
    assert(crate::markdown::strs_view(fields@).take(fields.len() as int) =~= crate::markdown::strs_view(fields@));
    let rows: Vec<Json> = Vec::new();
    assert(view_items(rows@) =~= Seq::<JsonV>::empty());
    let c = page_call(&fs, 0);
    Step::Call(RowsState { fields: fs, offset: 0, rows }, c)
}

/// The step after a page reply. The next page's bounds must fit in an `i64`.
pub fn fetch_ticket_rows_next(s: RowsState, reply: Result<Json, GlpiError>) -> (r: Step<RowsState, Vec<Json>>)
    requires
        0 <= s.offset,
        s.offset + 1000 <= i64::MAX,
    ensures
        rows_step_view(r) == rows_next_spec(rows_state_view(s), reply_view(reply)),
{
    let v = match reply {
        Err(e) => return Step::Done(Err(e.message())),
        Ok(v) => v,
    };
    let data = crate::tools::common::data_rows(&v);
    let fetched = data.len();
    let mut s = s;
    let mut i: usize = 0;
    let ghost before = view_items(s.rows@);
    let ghost sv = rows_state_view(s);
    while i < data.len()
        invariant
            i <= data.len(),
            s.offset == sv.offset,
            0 <= s.offset,
            s.offset + 1000 <= i64::MAX,
            crate::markdown::strings_view(s.fields@) == sv.fields,
            view_items(s.rows@) == before + view_items(data@).take(i as int),
        decreases data.len() - i,
    {
        let e = data[i].deep_clone();
        proof {
            crate::json::lemma_view_items_push(s.rows@, e);
        }
        s.rows.push(e);
        i = i + 1;
        assert(view_items(s.rows@) =~= before + view_items(data@).take(i as int));
    }
    assert(view_items(data@).take(data.len() as int) =~= view_items(data@));
    if fetched < 500 {
        Step::Done(Ok(s.rows))
    } else {
        s.offset = s.offset + 500;
        let c = page_call(&s.fields, s.offset);
        Step::Call(s, c)
    }
}


/// Whether a status is solved (5) or closed (6).
pub open spec fn is_done(status: Option<int>) -> bool {
    status == Some(5int) || status == Some(6int)
}

/// The rows whose status is neither solved nor closed, in order.
pub open spec fn open_rows(rows: Seq<JsonV>) -> Seq<JsonV>
    decreases rows.len(),
{
    if rows.len() == 0 {
        Seq::empty()
    } else {
        let p = open_rows(rows.drop_last());
        if is_done(field_i64_spec(rows.last(), "12"@)) {
            p
        } else {
            p.push(rows.last())
        }
    }
}

/// The rows whose status is solved or closed, in order.
pub open spec fn done_rows(rows: Seq<JsonV>) -> Seq<JsonV>
    decreases rows.len(),
{
    if rows.len() == 0 {
        Seq::empty()
    } else {
        let p = done_rows(rows.drop_last());
        if is_done(field_i64_spec(rows.last(), "12"@)) {
            p.push(rows.last())
        } else {
            p
        }
    }
}

/// The rows kept by status: the solved or closed ones when `done`, else the others.
fn rows_by_status(rows: &Vec<Json>, done: bool) -> (r: Vec<Json>)
    ensures
        view_items(r@) == if done { done_rows(view_items(rows@)) } else { open_rows(view_items(rows@)) },
{
    let ghost rv = view_items(rows@);
    let mut out: Vec<Json> = Vec::new();
    let mut i: usize = 0;
    assert(rv.take(0) =~= Seq::<JsonV>::empty());
    assert(view_items(out@) =~= Seq::<JsonV>::empty());
    while i < rows.len()
        invariant
            i <= rows.len(),
            rv == view_items(rows@),
            view_items(out@) == if done { done_rows(rv.take(i as int)) } else { open_rows(rv.take(i as int)) },
        decreases rows.len() - i,
    {
        assert(rv.take(i + 1).drop_last() =~= rv.take(i as int));
        assert(rv.take(i + 1).last() == rows@[i as int]@);
        let status = field_i64(&rows[i], "12");
        let is_done_now = match status {
            Some(n) => n == 5 || n == 6,
            None => false,
        };
        if is_done_now == done {
            let e = rows[i].deep_clone();
            proof {
                crate::json::lemma_view_items_push(out@, e);
            }
            out.push(e);
        }
        i = i + 1;
    }
    assert(rv.take(rows.len() as int) =~= rv);
    out
}

/// Each row's label in `table` for its field `id`, or `fallback`.
pub open spec fn table_labels(table: Map<int, Seq<char>>, fallback: Seq<char>, id: Seq<char>, rows: Seq<JsonV>) -> Seq<Seq<char>> {
    Seq::new(rows.len(), |i: int| lookup_spec(table, field_i64_spec(rows[i], id), fallback))
}

/// The count table of the rows by their label in `table`, every label of the table listed.
pub open spec fn table_counts_spec(total_label: Seq<char>, table: Map<int, Seq<char>>, fallback: Seq<char>, id: Seq<char>, rows: Seq<JsonV>) -> Seq<char> {
    counts_text(total_label, rows.len() as int, ranked(tally_map(table.values(), table_labels(table, fallback, id, rows))))
}

fn count_by_table(table: &HashMap<i64, &'static str>, fallback: &str, id: &str, rows: &Vec<Json>, total_label: &str) -> (r: String)
    ensures
        r@ == table_counts_spec(total_label@, table_view(*table), fallback@, id@, view_items(rows@)),
{
    let seed = seed_from_table(table);
    let ghost seed_set = table_view(*table).values();
    proof {
        lemma_seed_labels(tallies_view(seed@), seed_set);
    }
    let ghost want = table_labels(table_view(*table), fallback@, id@, view_items(rows@));
    let mut obs: Vec<Vec<char>> = Vec::new();
    let mut i: usize = 0;
    while i < rows.len()
        invariant
            i <= rows.len(),
            want == table_labels(table_view(*table), fallback@, id@, view_items(rows@)),
            chars_view(obs@) == want.take(i as int),
        decreases rows.len() - i,
    {
        let v = field_i64(&rows[i], id);
        let label = lookup(table, v, fallback);
        let c = chars_of(label);
        let ghost old_obs = chars_view(obs@);
        obs.push(c);
        assert(chars_view(obs@) =~= old_obs.push(c@));
        assert(want.take(i + 1) =~= want.take(i as int).push(want[i as int]));
        i = i + 1;
    }
    assert(want.take(rows.len() as int) =~= want);
    let counts = tally_labels(seed, &obs);
    proof {
        assert(obs@.map_values(|c: Vec<char>| c@) =~= chars_view(obs@));
        let m = tally_map(seed_set, want);
        lemma_sort_lists(tallies_view(counts@), m);
        lemma_ranked(sort_tallies(tallies_view(counts@)), m);
    }
    render_counts(total_label, rows.len(), counts)
}

/// Ticket count by status, every status listed.
pub fn stats_by_status(labels: &Labels, rows: &Vec<Json>) -> (r: String)
    ensures
        r@ == table_counts_spec("Total tickets"@, labels_view(labels).ticket_status, labels_view(labels).unknown, "12"@, view_items(rows@)),
{
    count_by_table(&labels.ticket_status, labels.unknown, "12", rows, "Total tickets")
}

/// Ticket count by type, every type listed.
pub fn stats_by_type(labels: &Labels, rows: &Vec<Json>) -> (r: String)
    ensures
        r@ == table_counts_spec("Total tickets"@, labels_view(labels).ticket_type, labels_view(labels).unknown, "14"@, view_items(rows@)),
{
    count_by_table(&labels.ticket_type, labels.unknown, "14", rows, "Total tickets")
}

/// Count of the tickets neither solved nor closed, by priority, every priority listed.
pub fn stats_by_priority(labels: &Labels, rows: &Vec<Json>) -> (r: String)
    ensures
        r@ == table_counts_spec("Total open tickets"@, labels_view(labels).ticket_priority, labels_view(labels).unknown_f, "3"@, open_rows(view_items(rows@))),
{
    let open = rows_by_status(rows, false);
    count_by_table(&labels.ticket_priority, labels.unknown_f, "3", &open, "Total open tickets")
}

/// A row's category: its trimmed category name, or `uncategorized` when that is empty or missing.
pub open spec fn category_label(l: LabelsView, row: JsonV) -> Seq<char> {
    match field_spec(row, "7"@) {
        Some(s) => if trim_ws(s).len() > 0 { trim_ws(s) } else { l.uncategorized },
        None => l.uncategorized,
    }
}

/// Each row's category.
pub open spec fn category_labels(l: LabelsView, rows: Seq<JsonV>) -> Seq<Seq<char>> {
    Seq::new(rows.len(), |i: int| category_label(l, rows[i]))
}

/// A row's assignees: the trimmed non-empty names of its comma-separated list, or
/// `unassigned` alone when the list is empty or missing.
pub open spec fn assignee_labels(l: LabelsView, row: JsonV) -> Seq<Seq<char>> {
    let raw = match field_spec(row, "5"@) {
        Some(s) => trim_ws(s),
        None => Seq::empty(),
    };
    if raw.len() == 0 {
        seq![l.unassigned]
    } else {
        trimmed_parts(split_on(raw, ','))
    }
}

/// Every row's assignees, one after another.
pub open spec fn all_assignees(l: LabelsView, rows: Seq<JsonV>) -> Seq<Seq<char>>
    decreases rows.len(),
{
    if rows.len() == 0 {
        Seq::empty()
    } else {
        all_assignees(l, rows.drop_last()) + assignee_labels(l, rows.last())
    }
}

/// Counts labels of no fixed set, and renders them.
fn count_free(obs: &Vec<Vec<char>>, total_label: &str, total: usize) -> (r: String)
    ensures
        r@ == counts_text(total_label@, total as int, ranked(tally_map(Set::empty(), chars_view(obs@)))),
{
    let seed: Vec<(Vec<char>, usize)> = Vec::new();
    proof {
        assert(labels_of(tallies_view(seed@)).to_set() =~= Set::<Seq<char>>::empty());
    }
    let counts = tally_labels(seed, obs);
    proof {
        assert(obs@.map_values(|c: Vec<char>| c@) =~= chars_view(obs@));
        let m = tally_map(Set::empty(), chars_view(obs@));
        lemma_sort_lists(tallies_view(counts@), m);
        lemma_ranked(sort_tallies(tallies_view(counts@)), m);
    }
    render_counts(total_label, total, counts)
}

/// Ticket count by category.
pub fn stats_by_category(labels: &Labels, rows: &Vec<Json>) -> (r: String)
    ensures
        r@ == counts_text("Total tickets"@, rows.len() as int, ranked(tally_map(Set::empty(), category_labels(labels_view(labels), view_items(rows@))))),
{
    let ghost want = category_labels(labels_view(labels), view_items(rows@));
    let mut obs: Vec<Vec<char>> = Vec::new();
    let mut i: usize = 0;
    while i < rows.len()
        invariant
            i <= rows.len(),
            want == category_labels(labels_view(labels), view_items(rows@)),
            chars_view(obs@) == want.take(i as int),
        decreases rows.len() - i,
    {
        let label = match field(&rows[i], "7") {
            Some(s) => {
                let t = trim(chars_of(s.as_str()).as_slice());
                if t.len() > 0 {
                    t
                } else {
                    chars_of(labels.uncategorized)
                }
            },
            None => chars_of(labels.uncategorized),
        };
        assert(label@ == want[i as int]);
        let ghost old_obs = chars_view(obs@);
        obs.push(label);
        assert(chars_view(obs@) =~= old_obs.push(want[i as int]));
        assert(want.take(i + 1) =~= want.take(i as int).push(want[i as int]));
        i = i + 1;
    }
    assert(want.take(rows.len() as int) =~= want);
    count_free(&obs, "Total tickets", rows.len())
}

/// Ticket count by assigned technician; a ticket with several counts once for each.
pub fn stats_by_assignee(labels: &Labels, rows: &Vec<Json>) -> (r: String)
    ensures
        r@ == counts_text("Total tickets"@, rows.len() as int, ranked(tally_map(Set::empty(), all_assignees(labels_view(labels), view_items(rows@))))),
{
    let ghost rv = view_items(rows@);
    let ghost l = labels_view(labels);
    let mut obs: Vec<Vec<char>> = Vec::new();
    let mut i: usize = 0;
    assert(rv.take(0) =~= Seq::<JsonV>::empty());
    assert(chars_view(obs@) =~= Seq::<Seq<char>>::empty());
    while i < rows.len()
        invariant
            i <= rows.len(),
            rv == view_items(rows@),
            l == labels_view(labels),
            chars_view(obs@) == all_assignees(l, rv.take(i as int)),
        decreases rows.len() - i,
    {
        assert(rv.take(i + 1).drop_last() =~= rv.take(i as int));
        assert(rv.take(i + 1).last() == rows@[i as int]@);
        let raw = match field(&rows[i], "5") {
            Some(s) => trim(chars_of(s.as_str()).as_slice()),
            None => Vec::new(),
        };
        let names = if raw.len() == 0 {
            let mut v: Vec<Vec<char>> = Vec::new();
            v.push(chars_of(labels.unassigned));
            assert(chars_view(v@) =~= seq![l.unassigned]);
            v
        } else {
            split_trimmed(raw.as_slice(), ',')
        };
        assert(chars_view(names@) == assignee_labels(l, rows@[i as int]@));
        let mut k: usize = 0;
        let ghost base = chars_view(obs@);
        while k < names.len()
            invariant
                k <= names.len(),
                chars_view(obs@) == base + chars_view(names@).take(k as int),
            decreases names.len() - k,
        {
            let n = slice_chars(names[k].as_slice(), 0, names[k].len());
            assert(names@[k as int]@.subrange(0, names@[k as int]@.len() as int) =~= names@[k as int]@);
            let ghost old_obs = chars_view(obs@);
            obs.push(n);
            assert(chars_view(obs@) =~= old_obs.push(n@));
            k = k + 1;
            assert(chars_view(obs@) =~= base + chars_view(names@).take(k as int));
        }
        assert(chars_view(names@).take(names.len() as int) =~= chars_view(names@));
        i = i + 1;
    }
    assert(rv.take(rows.len() as int) =~= rv);
    count_free(&obs, "Total tickets", rows.len())
}


/// A resolved row's resolution time in seconds: from its opening date (field 15) to its
/// solving date (field 17), when both read as dates and the second is not before the first.
pub open spec fn resolution_delta(row: JsonV) -> Option<int> {
    match (field_spec(row, "15"@), field_spec(row, "17"@)) {
        (Some(o), Some(d)) => match (glpi_datetime(o), glpi_datetime(d)) {
            (Some(a), Some(b)) => if elapsed_seconds(b, a) >= 0 { Some(elapsed_seconds(b, a)) } else { None },
            _ => None,
        },
        _ => None,
    }
}

/// The usable resolution times of the rows, in order.
pub open spec fn resolution_deltas(rows: Seq<JsonV>) -> Seq<int>
    decreases rows.len(),
{
    if rows.len() == 0 {
        Seq::empty()
    } else {
        let p = resolution_deltas(rows.drop_last());
        match resolution_delta(rows.last()) {
            Some(d) => p.push(d),
            None => p,
        }
    }
}

/// The number of solved or closed tickets, and the resolution time in seconds of each of
/// them whose dates are usable. Averaging them is left to the caller.
pub fn resolution_times(rows: &Vec<Json>) -> (r: (usize, Vec<i128>))
    ensures
        r.0 == done_rows(view_items(rows@)).len(),
        r.1@.map_values(|d: i128| d as int) == resolution_deltas(done_rows(view_items(rows@))),
{
    let done = rows_by_status(rows, true);
    let ghost dv = view_items(done@);
    let mut deltas: Vec<i128> = Vec::new();
    let mut i: usize = 0;
    assert(dv.take(0) =~= Seq::<JsonV>::empty());
    assert(deltas@.map_values(|d: i128| d as int) =~= Seq::<int>::empty());
    while i < done.len()
        invariant
            i <= done.len(),
            dv == view_items(done@),
            deltas@.map_values(|d: i128| d as int) == resolution_deltas(dv.take(i as int)),
        decreases done.len() - i,
    {
        assert(dv.take(i + 1).drop_last() =~= dv.take(i as int));
        assert(dv.take(i + 1).last() == done@[i as int]@);
        let opened = match field(&done[i], "15") {
            Some(s) => parse_glpi_datetime(s.as_str()),
            None => None,
        };
        let solved = match field(&done[i], "17") {
            Some(s) => parse_glpi_datetime(s.as_str()),
            None => None,
        };
        if let (Some(a), Some(b)) = (opened, solved) {
            let d = elapsed(b, a);
            if d >= 0 {
                let ghost old_d = deltas@;
                deltas.push(d);
                assert(deltas@.map_values(|d: i128| d as int) =~= old_d.map_values(|d: i128| d as int).push(d as int));
            }
        }
        i = i + 1;
    }
    assert(dv.take(done.len() as int) =~= dv);
    (done.len(), deltas)
}

/// An overdue ticket: its id, name and deadline texts, how many seconds it is overdue, and
/// its status and priority labels.
#[derive(Debug, PartialEq)]
pub struct OverdueTicket {
    pub id: String,
    pub name: String,
    pub deadline: String,
    pub overdue_seconds: i128,
    pub status: String,
    pub priority: String,
}

pub struct OverdueV {
    pub id: Seq<char>,
    pub name: Seq<char>,
    pub deadline: Seq<char>,
    pub overdue_seconds: int,
    pub status: Seq<char>,
    pub priority: Seq<char>,
}

pub open spec fn overdue_view(t: OverdueTicket) -> OverdueV {
    OverdueV {
        id: t.id@,
        name: t.name@,
        deadline: t.deadline@,
        overdue_seconds: t.overdue_seconds as int,
        status: t.status@,
        priority: t.priority@,
    }
}

/// A text field, or the empty text.
pub open spec fn text_or_empty(row: JsonV, id: Seq<char>) -> Seq<char> {
    match field_spec(row, id) {
        Some(s) => s,
        None => ""@,
    }
}

/// The row as an overdue ticket, when its deadline (field 18) is a date before `now`
/// (`now_secs` seconds and `now_nanos` nanoseconds, on the same clock as the dates).
pub open spec fn overdue_of(l: LabelsView, row: JsonV, now_secs: int, now_nanos: int) -> Option<OverdueV> {
    match field_spec(row, "18"@) {
        Some(d) => if d.len() == 0 {
            None
        } else {
            match glpi_datetime(d) {
                Some(t) => if instant_before(t, (now_secs, now_nanos)) {
                    Some(OverdueV {
                        id: text_or_empty(row, "2"@),
                        name: text_or_empty(row, "1"@),
                        deadline: d,
                        overdue_seconds: elapsed_seconds((now_secs, now_nanos), t),
                        status: lookup_spec(l.ticket_status, field_i64_spec(row, "12"@), l.unknown),
                        priority: lookup_spec(l.ticket_priority, field_i64_spec(row, "3"@), l.unknown_f),
                    })
                } else {
                    None
                },
                None => None,
            }
        },
        None => None,
    }
}

/// The overdue tickets among the rows, in order.
pub open spec fn overdue_list(l: LabelsView, rows: Seq<JsonV>, now_secs: int, now_nanos: int) -> Seq<OverdueV>
    decreases rows.len(),
{
    if rows.len() == 0 {
        Seq::empty()
    } else {
        let p = overdue_list(l, rows.drop_last(), now_secs, now_nanos);
        match overdue_of(l, rows.last(), now_secs, now_nanos) {
            Some(o) => p.push(o),
            None => p,
        }
    }
}

fn text_field_or_empty(row: &Json, id: &str) -> (r: String)
    ensures
        r@ == text_or_empty(row@, id@),
{
    match field(row, id) {
        Some(s) => copy_string(s),
        None => owned(""),
    }
}

/// The number of tickets neither solved nor closed, and those of them past their deadline
/// at `now` (`now_secs` seconds and `now_nanos` nanoseconds), in order. Ranking them by how
/// long they are overdue is left to the caller.
pub fn overdue_tickets(labels: &Labels, rows: &Vec<Json>, now_secs: i64, now_nanos: u32) -> (r: (usize, Vec<OverdueTicket>))
    ensures
        r.0 == open_rows(view_items(rows@)).len(),
        r.1@.map_values(|t: OverdueTicket| overdue_view(t)) == overdue_list(labels_view(labels), open_rows(view_items(rows@)), now_secs as int, now_nanos as int),
{
    let open = rows_by_status(rows, false);
    let ghost ov = view_items(open@);
    let ghost l = labels_view(labels);
    let mut out: Vec<OverdueTicket> = Vec::new();
    let mut i: usize = 0;
    assert(ov.take(0) =~= Seq::<JsonV>::empty());
    assert(out@.map_values(|t: OverdueTicket| overdue_view(t)) =~= Seq::<OverdueV>::empty());
    while i < open.len()
        invariant
            i <= open.len(),
            ov == view_items(open@),
            l == labels_view(labels),
            out@.map_values(|t: OverdueTicket| overdue_view(t)) == overdue_list(l, ov.take(i as int), now_secs as int, now_nanos as int),
        decreases open.len() - i,
    {
        assert(ov.take(i + 1).drop_last() =~= ov.take(i as int));
        assert(ov.take(i + 1).last() == open@[i as int]@);
        let row = &open[i];
        if let Some(d) = field(row, "18") {
            if !d.as_str().is_empty() {
                if let Some(t) = parse_glpi_datetime(d.as_str()) {
                    if instant_before_exec(t, (now_secs, now_nanos)) {
                        let status = lookup(&labels.ticket_status, field_i64(row, "12"), labels.unknown);
                        let priority = lookup(&labels.ticket_priority, field_i64(row, "3"), labels.unknown_f);
                        let o = OverdueTicket {
                            id: text_field_or_empty(row, "2"),
                            name: text_field_or_empty(row, "1"),
                            deadline: copy_string(d),
                            overdue_seconds: elapsed((now_secs, now_nanos), t),
                            status: owned(status),
                            priority: owned(priority),
                        };
                        let ghost old_out = out@;
                        out.push(o);
                        assert(out@.map_values(|t: OverdueTicket| overdue_view(t)) =~= old_out.map_values(|t: OverdueTicket| overdue_view(t)).push(overdue_view(o)));
                    }
                }
            }
        }
        i = i + 1;
    }
    assert(ov.take(open.len() as int) =~= ov);
    (open.len(), out)
}

/// One row of the overdue table: id, escaped name, deadline, hours overdue with an `h`,
/// status and priority.
pub open spec fn overdue_row(t: OverdueV, hours: Seq<char>) -> Seq<Seq<char>> {
    seq![t.id, crate::markdown::escape_cell_spec(t.name), t.deadline, hours + "h"@, t.status, t.priority]
}

/// The overdue answer: a short note when none is overdue, else the totals and a table of
/// the overdue tickets in the order given, each with its hours-overdue text.
pub open spec fn overdue_text(open_total: int, rows: Seq<(OverdueV, Seq<char>)>) -> Seq<char> {
    if rows.len() == 0 {
        "**Total open tickets: "@ + int_text(open_total) + "**\n\nNo overdue tickets."@
    } else {
        "**Total open: "@ + int_text(open_total) + ", overdue: "@ + int_text(rows.len() as int) + "**\n\n"@
            + crate::markdown::table_spec(seq!["ID"@, "Name"@, "Deadline"@, "Overdue"@, "Status"@, "Priority"@],
                Seq::new(rows.len(), |i: int| overdue_row(rows[i].0, rows[i].1)))
    }
}

/// Renders the overdue tickets, already ranked, each with its hours-overdue text.
pub fn render_overdue(open_total: usize, rows: &Vec<(OverdueTicket, String)>) -> (r: String)
    ensures
        r@ == overdue_text(open_total as int, rows@.map_values(|e: (OverdueTicket, String)| (overdue_view(e.0), e.1@))),
{
    let ghost rv = rows@.map_values(|e: (OverdueTicket, String)| (overdue_view(e.0), e.1@));
    let mut out: Vec<char> = Vec::new();
    if rows.len() == 0 {
        extend_str(&mut out, "**Total open tickets: ");
        push_int(&mut out, open_total as i128);
        extend_str(&mut out, "**\n\nNo overdue tickets.");
        return string_of(out.as_slice());
    }
    let ghost want = Seq::new(rv.len(), |i: int| overdue_row(rv[i].0, rv[i].1));
    let mut cells: Vec<Vec<String>> = Vec::new();
    let mut i: usize = 0;
    while i < rows.len()
        invariant
            i <= rows.len(),
            rv == rows@.map_values(|e: (OverdueTicket, String)| (overdue_view(e.0), e.1@)),
            want == Seq::new(rv.len(), |i: int| overdue_row(rv[i].0, rv[i].1)),
            crate::markdown::rows_view(cells@) == want.take(i as int),
        decreases rows.len() - i,
    {
        let (t, hours) = &rows[i];
        let mut h: Vec<char> = chars_of(hours.as_str());
        h.push('h');
        let row = vec![
            copy_string(&t.id),
            crate::markdown::escape_cell(t.name.as_str()),
            copy_string(&t.deadline),
            string_of(h.as_slice()),
            copy_string(&t.status),
            copy_string(&t.priority),
        ];
        proof {
            reveal_strlit("h");
        }
        assert(h@ =~= hours@ + "h"@);
        assert(rv[i as int] == (overdue_view(*t), hours@));
        assert(crate::markdown::strings_view(row@) =~= want[i as int]);
        let ghost old_cells = cells@;
        cells.push(row);
        assert(crate::markdown::rows_view(cells@) =~= crate::markdown::rows_view(old_cells).push(crate::markdown::strings_view(row@)));
        assert(want.take(i + 1) =~= want.take(i as int).push(want[i as int]));
        i = i + 1;
    }
    assert(want.take(rows.len() as int) =~= want);
    let headers = ["ID", "Name", "Deadline", "Overdue", "Status", "Priority"];
    assert(crate::markdown::strs_view(headers@) =~= seq!["ID"@, "Name"@, "Deadline"@, "Overdue"@, "Status"@, "Priority"@]);
    let t = crate::markdown::table(&headers, cells.as_slice());
    extend_str(&mut out, "**Total open: ");
    push_int(&mut out, open_total as i128);
    extend_str(&mut out, ", overdue: ");
    push_int(&mut out, rows.len() as i128);
    extend_str(&mut out, "**\n\n");
    extend_str(&mut out, t.as_str());
    string_of(out.as_slice())
}


/// An overdue ticket with its rank key (tenths of hours overdue) and its hours text.
pub type RankedV = (OverdueV, int, Seq<char>);

pub open spec fn ranked_view(v: Seq<(OverdueTicket, i64, String)>) -> Seq<RankedV> {
    v.map_values(|e: (OverdueTicket, i64, String)| (overdue_view(e.0), e.1 as int, e.2@))
}

/// The first index from `k` on whose key is below `key`.
pub open spec fn rank_pos(s: Seq<RankedV>, key: int, k: int) -> int
    decreases s.len() - k,
{
    if k >= s.len() {
        s.len() as int
    } else if s[k].1 >= key {
        rank_pos(s, key, k + 1)
    } else {
        k
    }
}

/// The entries ordered by key, highest first; entries of equal key keep their order.
pub open spec fn rank_overdue_spec(s: Seq<RankedV>) -> Seq<RankedV>
    decreases s.len(),
{
    if s.len() == 0 {
        Seq::empty()
    } else {
        let r = rank_overdue_spec(s.drop_last());
        let p = rank_pos(r, s.last().1, 0);
        r.take(p) + seq![s.last()] + r.skip(p)
    }
}

/// Keys never go up along the list.
pub open spec fn keys_descending(s: Seq<RankedV>) -> bool {
    forall|i: int, j: int| 0 <= i < j < s.len() ==> s[i].1 >= s[j].1
}

proof fn lemma_rank_pos(s: Seq<RankedV>, key: int, k: int)
    requires
        0 <= k <= s.len(),
    ensures
        k <= rank_pos(s, key, k) <= s.len(),
        forall|i: int| k <= i < rank_pos(s, key, k) ==> s[i].1 >= key,
        rank_pos(s, key, k) < s.len() ==> s[rank_pos(s, key, k)].1 < key,
    decreases s.len() - k,
{
    if k < s.len() && s[k].1 >= key {
        lemma_rank_pos(s, key, k + 1);
    }
}

/// The entries of `s` whose key is `key`, in their order.
pub open spec fn entries_with_key(s: Seq<RankedV>, key: int) -> Seq<RankedV>
    decreases s.len(),
{
    if s.len() == 0 {
        Seq::empty()
    } else {
        let r = entries_with_key(s.drop_last(), key);
        if s.last().1 == key { r.push(s.last()) } else { r }
    }
}

proof fn lemma_with_key_add(a: Seq<RankedV>, b: Seq<RankedV>, key: int)
    ensures
        entries_with_key(a + b, key) == entries_with_key(a, key) + entries_with_key(b, key),
    decreases b.len(),
{
    if b.len() == 0 {
        assert(a + b =~= a);
        assert(entries_with_key(a, key) + entries_with_key(b, key) =~= entries_with_key(a, key));
    } else {
        lemma_with_key_add(a, b.drop_last(), key);
        assert((a + b).drop_last() =~= a + b.drop_last());
        assert((a + b).last() == b.last());
        if b.last().1 == key {
            assert(entries_with_key(a, key) + entries_with_key(b.drop_last(), key).push(b.last())
                =~= (entries_with_key(a, key) + entries_with_key(b.drop_last(), key)).push(b.last()));
        }
    }
}

proof fn lemma_with_key_none(s: Seq<RankedV>, key: int)
    requires
        forall|i: int| 0 <= i < s.len() ==> (#[trigger] s[i]).1 != key,
    ensures
        entries_with_key(s, key) == Seq::<RankedV>::empty(),
    decreases s.len(),
{
    if s.len() > 0 {
        assert forall|i: int| 0 <= i < s.drop_last().len() implies (#[trigger] s.drop_last()[i]).1 != key by {
            assert(s.drop_last()[i] == s[i]);
        }
        lemma_with_key_none(s.drop_last(), key);
        assert(s[s.len() - 1] == s.last());
    }
}

/// Ranking lists the entries by key, highest first, and keeps them all: the ranked list
/// is a reordering of the entries, each listed as often as it was given, and the entries
/// of any one key come in the order they were given.
pub proof fn lemma_rank_overdue(s: Seq<RankedV>)
    ensures
        keys_descending(rank_overdue_spec(s)),
        rank_overdue_spec(s).len() == s.len(),
        rank_overdue_spec(s).to_multiset() =~= s.to_multiset(),
        forall|key: int| #[trigger] entries_with_key(rank_overdue_spec(s), key) == entries_with_key(s, key),
    decreases s.len(),
{
    if s.len() == 0 {
        assert(rank_overdue_spec(s) =~= s);
    }
    if s.len() > 0 {
        let t = s.drop_last();
        lemma_rank_overdue(t);
        let r = rank_overdue_spec(t);
        let x = s.last();
        let p = rank_pos(r, x.1, 0);
        lemma_rank_pos(r, x.1, 0);
        let out = r.take(p) + seq![x] + r.skip(p);
        assert(out.to_multiset() =~= s.to_multiset()) by {
            vstd::seq_lib::lemma_multiset_commutative(r.take(p) + seq![x], r.skip(p));
            vstd::seq_lib::lemma_multiset_commutative(r.take(p), seq![x]);
            vstd::seq_lib::lemma_multiset_commutative(r.take(p), r.skip(p));
            assert(r.take(p) + r.skip(p) =~= r);
            vstd::seq_lib::lemma_multiset_commutative(t, seq![x]);
            assert(t + seq![x] =~= s);
            assert(seq![x].to_multiset() =~= vstd::multiset::Multiset::<RankedV>::empty().insert(x)) by {
                vstd::seq_lib::to_multiset_build(Seq::<RankedV>::empty(), x);
                assert(Seq::<RankedV>::empty().push(x) =~= seq![x]);
                assert(Seq::<RankedV>::empty().to_multiset() =~= vstd::multiset::Multiset::<RankedV>::empty()) by {
                    broadcast use vstd::seq_lib::group_to_multiset_ensures;
                    broadcast use vstd::multiset::group_multiset_axioms;
                }
            }
            broadcast use vstd::multiset::group_multiset_axioms;
        }
        assert forall|key: int| #[trigger] entries_with_key(out, key) == entries_with_key(s, key) by {
            let a = r.take(p);
            let b = r.skip(p);
            lemma_with_key_add(a + seq![x], b, key);
            lemma_with_key_add(a, seq![x], key);
            lemma_with_key_add(a, b, key);
            assert(a + b =~= r);
            assert(t.push(x) =~= s);
            assert(s.drop_last() =~= t);
            assert(seq![x].drop_last() =~= Seq::<RankedV>::empty());
            assert(entries_with_key(Seq::<RankedV>::empty(), key) == Seq::<RankedV>::empty());
            assert(entries_with_key(seq![x], key)
                == if x.1 == key { Seq::<RankedV>::empty().push(x) } else { Seq::<RankedV>::empty() });
            assert(Seq::<RankedV>::empty().push(x) =~= seq![x]);
            assert(entries_with_key(r, key) == entries_with_key(t, key));
            assert(entries_with_key(s, key)
                == if x.1 == key { entries_with_key(t, key).push(x) } else { entries_with_key(t, key) });
            if key == x.1 {
                assert forall|i: int| 0 <= i < b.len() implies (#[trigger] b[i]).1 != key by {
                    assert(b[i] == r[p + i]);
                    if i > 0 {
                        assert(r[p].1 >= r[p + i].1);
                    }
                }
                lemma_with_key_none(b, key);
                assert(entries_with_key(out, key) =~= entries_with_key(r, key).push(x));
            } else {
                assert(entries_with_key(out, key) =~= entries_with_key(r, key));
            }
        }
        assert forall|i: int, j: int| 0 <= i < j < out.len() implies out[i].1 >= out[j].1 by {
            if j < p {
                assert(out[i] == r[i] && out[j] == r[j]);
            } else if j == p {
                assert(out[i] == r[i]);
            } else if i < p {
                assert(out[i] == r[i] && out[j] == r[j - 1]);
            } else if i == p {
                assert(out[j] == r[j - 1]);
                assert(r[p].1 < x.1);
            } else {
                assert(out[i] == r[i - 1] && out[j] == r[j - 1]);
            }
        }
    }
}

fn copy_ticket(t: &OverdueTicket) -> (r: OverdueTicket)
    ensures
        overdue_view(r) == overdue_view(*t),
{
    OverdueTicket {
        id: copy_string(&t.id),
        name: copy_string(&t.name),
        deadline: copy_string(&t.deadline),
        overdue_seconds: t.overdue_seconds,
        status: copy_string(&t.status),
        priority: copy_string(&t.priority),
    }
}

/// Ranks the overdue tickets by their key, highest first, keeping the order of equal keys.
pub fn rank_overdue(entries: &Vec<(OverdueTicket, i64, String)>) -> (r: Vec<(OverdueTicket, i64, String)>)
    ensures
        ranked_view(r@) == rank_overdue_spec(ranked_view(entries@)),
        keys_descending(ranked_view(r@)),
        ranked_view(r@).to_multiset() == ranked_view(entries@).to_multiset(),
        forall|key: int| #[trigger] entries_with_key(ranked_view(r@), key) == entries_with_key(ranked_view(entries@), key),
{
    let ghost v = ranked_view(entries@);
    proof {
        lemma_rank_overdue(v);
    }
    let mut out: Vec<(OverdueTicket, i64, String)> = Vec::new();
    assert(ranked_view(out@) =~= rank_overdue_spec(v.take(0)));
    let mut i: usize = 0;
    while i < entries.len()
        invariant
            i <= entries.len(),
            v == ranked_view(entries@),
            ranked_view(out@) == rank_overdue_spec(v.take(i as int)),
        decreases entries.len() - i,
    {
        let x = (copy_ticket(&entries[i].0), entries[i].1, copy_string(&entries[i].2));
        let ghost xv = (overdue_view(x.0), x.1 as int, x.2@);
        assert(xv == v[i as int]);
        let ghost ov = ranked_view(out@);
        let mut p: usize = 0;
        while p < out.len() && out[p].1 >= x.1
            invariant
                p <= out.len(),
                ov == ranked_view(out@),
                xv == (overdue_view(x.0), x.1 as int, x.2@),
                rank_pos(ov, xv.1, 0) == rank_pos(ov, xv.1, p as int),
            decreases out.len() - p,
        {
            p = p + 1;
        }
        assert(rank_pos(ov, xv.1, p as int) == p);
        out.insert(p, x);
        assert(ranked_view(out@) =~= ov.take(p as int) + seq![xv] + ov.skip(p as int));
        assert(v.take(i + 1).drop_last() =~= v.take(i as int));
        assert(v.take(i + 1).last() == xv);
        i = i + 1;
    }
    assert(v.take(entries.len() as int) =~= v);
    out
}

/// The overdue answer: the tickets ranked by key (tenths of hours overdue), then rendered.
pub fn overdue_answer(open_total: usize, entries: &Vec<(OverdueTicket, i64, String)>) -> (r: String)
    ensures
        r@ == overdue_text(open_total as int, rank_overdue_spec(ranked_view(entries@)).map_values(|e: RankedV| (e.0, e.2))),
{
    let ranked = rank_overdue(entries);
    let ghost rv = ranked_view(ranked@);
    let ghost want = rv.map_values(|e: RankedV| (e.0, e.2));
    let mut rows: Vec<(OverdueTicket, String)> = Vec::new();
    let mut i: usize = 0;
    while i < ranked.len()
        invariant
            i <= ranked.len(),
            rv == ranked_view(ranked@),
            want == rv.map_values(|e: RankedV| (e.0, e.2)),
            rows@.map_values(|e: (OverdueTicket, String)| (overdue_view(e.0), e.1@)) == want.take(i as int),
        decreases ranked.len() - i,
    {
        let e = (copy_ticket(&ranked[i].0), copy_string(&ranked[i].2));
        let ghost old_rows = rows@;
        rows.push(e);
        assert(rows@.map_values(|e: (OverdueTicket, String)| (overdue_view(e.0), e.1@))
            =~= old_rows.map_values(|e: (OverdueTicket, String)| (overdue_view(e.0), e.1@)).push((overdue_view(e.0), e.1@)));
        assert(want.take(i + 1) =~= want.take(i as int).push(want[i as int]));
        i = i + 1;
    }
    assert(want.take(ranked.len() as int) =~= want);
    render_overdue(open_total, &rows)
}

} // verus!
