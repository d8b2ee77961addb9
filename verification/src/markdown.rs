//! Rendering of GLPI data as compact Markdown.
use vstd::prelude::*;
use crate::text::{chars_of, extend, extend_str, int_string, int_text, slice_chars, string_of};
use crate::html::{strip_html_chars, strip_html_spec};
use crate::json::{copy_string, jget, jget_str, view_items, Json, JsonV};

verus! {

broadcast use vstd::string::group_string_axioms;

/// `s` with every `c` replaced by `r`, as `str::replace` with a char pattern does.
pub open spec fn replace_char(s: Seq<char>, c: char, r: Seq<char>) -> Seq<char>
    decreases s.len(),
{
    if s.len() == 0 {
        Seq::empty()
    } else {
        replace_char(s.drop_last(), c, r) + (if s.last() == c {
            r
        } else {
            seq![s.last()]
        })
    }
}

/// Replaces every `c` in `s` by `r`.
pub fn replace_char_exec(s: &[char], c: char, r: &[char]) -> (out: Vec<char>)
    ensures
        out@ == replace_char(s@, c, r@),
{
    let mut out: Vec<char> = Vec::new();
    let mut i: usize = 0;
    while i < s.len()
        invariant
            i <= s.len(),
            out@ == replace_char(s@.take(i as int), c, r@),
        decreases s.len() - i,
    {
        assert(s@.take(i + 1).drop_last() =~= s@.take(i as int));
        if s[i] == c {
            extend(&mut out, r);
        } else {
            out.push(s[i]);
        }
        i = i + 1;
    }
    assert(s@.take(s.len() as int) =~= s@);
    out
}

/// What `escape_cell` makes of `s`: pipes escaped, newlines turned into spaces,
/// carriage returns dropped.
pub open spec fn escape_cell_spec(s: Seq<char>) -> Seq<char> {
    replace_char(replace_char(replace_char(s, '|', seq!['\\', '|']), '\n', seq![' ']), '\r', seq![])
}

/// Escapes the chars of `s` for a Markdown table cell.
pub fn escape_cell_chars(s: &[char]) -> (r: Vec<char>)
    ensures
        r@ == escape_cell_spec(s@),
{
    let bar = ['\\', '|'];
    let space = [' '];
    let none: [char; 0] = [];
    let a = replace_char_exec(s, '|', &bar);
    assert(bar@ == seq!['\\', '|']);
    let b = replace_char_exec(a.as_slice(), '\n', &space);
    assert(space@ == seq![' ']);
    let c = replace_char_exec(b.as_slice(), '\r', &none);
    assert(none@ =~= Seq::<char>::empty());
    c
}

/// Escapes characters that would break a Markdown table cell.
pub fn escape_cell(value: &str) -> (r: String)
    ensures
        r@ == escape_cell_spec(value@),
{
    let v = chars_of(value);
    let e = escape_cell_chars(v.as_slice());
    string_of(e.as_slice())
}

/// The first `max` chars of `s`, with an ellipsis appended when something was cut.
pub open spec fn truncate_spec(s: Seq<char>, max: nat) -> Seq<char> {
    if s.len() <= max {
        s
    } else {
        s.take(max as int).push('…')
    }
}

/// Truncates the chars of `s` to at most `max_chars`, appending an ellipsis when it cuts.
pub fn truncate_chars(s: &[char], max_chars: usize) -> (r: Vec<char>)
    ensures
        r@ == truncate_spec(s@, max_chars as nat),
{
    if s.len() <= max_chars {
        slice_chars(s, 0, s.len())
    } else {
        let mut r = slice_chars(s, 0, max_chars);
        r.push('…');
        r
    }
}

/// Truncates to at most `max_chars` characters (by codepoint, never mid character), appending an ellipsis.
pub fn truncate(value: &str, max_chars: usize) -> (r: String)
    ensures
        r@ == truncate_spec(value@, max_chars as nat),
{
    let v = chars_of(value);
    let t = truncate_chars(v.as_slice(), max_chars);
    string_of(t.as_slice())
}

/// The parts joined with `sep` between each two.
pub open spec fn join(parts: Seq<Seq<char>>, sep: Seq<char>) -> Seq<char>
    decreases parts.len(),
{
    if parts.len() == 0 {
        Seq::empty()
    } else if parts.len() == 1 {
        parts[0]
    } else {
        join(parts.drop_last(), sep) + sep + parts.last()
    }
}

/// `s` written `n` times in a row.
pub open spec fn repeat(s: Seq<char>, n: nat) -> Seq<char>
    decreases n,
{
    if n == 0 {
        Seq::empty()
    } else {
        repeat(s, (n - 1) as nat) + s
    }
}

/// The views of a list of strings.
pub open spec fn strs_view(v: Seq<&str>) -> Seq<Seq<char>> {
    v.map_values(|s: &str| s@)
}

/// The views of a list of owned strings.
pub open spec fn strings_view(v: Seq<String>) -> Seq<Seq<char>> {
    v.map_values(|s: String| s@)
}

/// One table row: `| a | b | c |`.
pub open spec fn table_row(cells: Seq<Seq<char>>) -> Seq<char> {
    "| "@ + join(cells, " | "@) + " |"@
}

/// The body rows of a table, each on a new line.
pub open spec fn table_body(rows: Seq<Seq<Seq<char>>>) -> Seq<char>
    decreases rows.len(),
{
    if rows.len() == 0 {
        Seq::empty()
    } else {
        table_body(rows.drop_last()) + "\n"@ + table_row(rows.last())
    }
}

/// A whole Markdown table: header row, separator row, then the body rows.
pub open spec fn table_spec(headers: Seq<Seq<char>>, rows: Seq<Seq<Seq<char>>>) -> Seq<char> {
    table_row(headers) + "\n|"@ + repeat("---|"@, headers.len()) + table_body(rows)
}

/// The views of the rows of a table.
pub open spec fn rows_view(rows: Seq<Vec<String>>) -> Seq<Seq<Seq<char>>> {
    rows.map_values(|r: Vec<String>| strings_view(r@))
}

/// Appends the parts to `out`, separated by `sep`.
pub fn push_joined_strs(out: &mut Vec<char>, parts: &[&str], sep: &str)
    ensures
        final(out)@ == old(out)@ + join(strs_view(parts@), sep@),
{
    let mut i: usize = 0;
    while i < parts.len()
        invariant
            i <= parts.len(),
            out@ == old(out)@ + join(strs_view(parts@.take(i as int)), sep@),
        decreases parts.len() - i,
    {
        let ghost before = out@;
        assert(strs_view(parts@.take(i + 1)).drop_last() =~= strs_view(parts@.take(i as int)));
        if i > 0 {
            extend_str(out, sep);
        }
        extend_str(out, parts[i]);
        i = i + 1;
        proof {
            let p = strs_view(parts@.take(i as int));
            if i == 1 {
                assert(p.len() == 1);
                assert(join(strs_view(parts@.take(0)), sep@) =~= Seq::<char>::empty());
                assert(out@ =~= old(out)@ + join(p, sep@));
            } else {
                assert(out@ =~= old(out)@ + join(p, sep@));
            }
        }
    }
    assert(parts@.take(parts.len() as int) =~= parts@);
}

/// Appends the parts to `out`, separated by `sep`.
pub fn push_joined_strings(out: &mut Vec<char>, parts: &[String], sep: &str)
    ensures
        final(out)@ == old(out)@ + join(strings_view(parts@), sep@),
{
    let mut i: usize = 0;
    while i < parts.len()
        invariant
            i <= parts.len(),
            out@ == old(out)@ + join(strings_view(parts@.take(i as int)), sep@),
        decreases parts.len() - i,
    {
        assert(strings_view(parts@.take(i + 1)).drop_last() =~= strings_view(
            parts@.take(i as int),
        ));
        if i > 0 {
            extend_str(out, sep);
        }
        extend_str(out, parts[i].as_str());
        i = i + 1;
        proof {
            let p = strings_view(parts@.take(i as int));
            if i == 1 {
                assert(join(strings_view(parts@.take(0)), sep@) =~= Seq::<char>::empty());
            }
            assert(out@ =~= old(out)@ + join(p, sep@));
        }
    }
    assert(parts@.take(parts.len() as int) =~= parts@);
}

/// Renders a Markdown table from a header row and pre-built cell rows.
pub fn table(headers: &[&str], rows: &[Vec<String>]) -> (r: String)
    ensures
        r@ == table_spec(strs_view(headers@), rows_view(rows@)),
{
    let mut out: Vec<char> = Vec::new();
    extend_str(&mut out, "| ");
    push_joined_strs(&mut out, headers, " | ");
    extend_str(&mut out, " |\n|");
    let mut k: usize = 0;
    while k < headers.len()
        invariant
            k <= headers.len(),
            out@ == "| "@ + join(strs_view(headers@), " | "@) + " |\n|"@ + repeat("---|"@, k as nat),
        decreases headers.len() - k,
    {
        extend_str(&mut out, "---|");
        k = k + 1;
    }
    proof {
        reveal_strlit(" |\n|");
        reveal_strlit(" |");
        reveal_strlit("\n|");
        assert(" |\n|"@ =~= " |"@ + "\n|"@);
    }
    let ghost head = out@;
    assert(head =~= table_row(strs_view(headers@)) + "\n|"@ + repeat(
        "---|"@,
        strs_view(headers@).len(),
    ));
    let mut i: usize = 0;
    while i < rows.len()
        invariant
            i <= rows.len(),
            out@ == head + table_body(rows_view(rows@.take(i as int))),
        decreases rows.len() - i,
    {
        assert(rows_view(rows@.take(i + 1)).drop_last() =~= rows_view(rows@.take(i as int)));
        extend_str(&mut out, "\n");
        extend_str(&mut out, "| ");
        push_joined_strings(&mut out, rows[i].as_slice(), " | ");
        extend_str(&mut out, " |");
        i = i + 1;
        assert(out@ =~= head + table_body(rows_view(rows@.take(i as int))));
    }
    assert(rows@.take(rows.len() as int) =~= rows@);
    string_of(out.as_slice())
}

/// One `| label | value |` row of a detail table, the value escaped.
pub open spec fn field_row(label: Seq<char>, value: Seq<char>) -> Seq<char> {
    "\n| "@ + label + " | "@ + escape_cell_spec(value) + " |"@
}

/// The rows of a detail table.
pub open spec fn field_rows(fields: Seq<(Seq<char>, Seq<char>)>) -> Seq<char>
    decreases fields.len(),
{
    if fields.len() == 0 {
        Seq::empty()
    } else {
        field_rows(fields.drop_last()) + field_row(fields.last().0, fields.last().1)
    }
}

/// The views of label/value pairs.
pub open spec fn fields_view(fields: Seq<(&str, String)>) -> Seq<(Seq<char>, Seq<char>)> {
    fields.map_values(|f: (&str, String)| (f.0@, f.1@))
}

/// A two column Field/Value table.
pub open spec fn field_table_spec(fields: Seq<(Seq<char>, Seq<char>)>) -> Seq<char> {
    "| Field | Value |\n|---|---|"@ + field_rows(fields)
}

/// Renders a two column "field: value" Markdown table for a single record's detail view.
pub fn field_table(fields: &[(&str, String)]) -> (r: String)
    ensures
        r@ == field_table_spec(fields_view(fields@)),
{
    let mut out: Vec<char> = Vec::new();
    extend_str(&mut out, "| Field | Value |\n|---|---|");
    let mut i: usize = 0;
    while i < fields.len()
        invariant
            i <= fields.len(),
            out@ == field_table_spec(fields_view(fields@.take(i as int))),
        decreases fields.len() - i,
    {
        assert(fields_view(fields@.take(i + 1)).drop_last() =~= fields_view(
            fields@.take(i as int),
        ));
        let (label, value) = &fields[i];
        extend_str(&mut out, "\n| ");
        extend_str(&mut out, label);
        extend_str(&mut out, " | ");
        let vc = chars_of(value.as_str());
        let e = escape_cell_chars(vc.as_slice());
        extend(&mut out, e.as_slice());
        extend_str(&mut out, " |");
        i = i + 1;
        assert(out@ =~= field_table_spec(fields_view(fields@.take(i as int))));
    }
    assert(fields@.take(fields.len() as int) =~= fields@);
    string_of(out.as_slice())
}

/// Decodes HTML entities and drops tags, turning GLPI's WYSIWYG markup into plain,
/// readable text. Block level tags (`<p>`, `<br>`, `<div>`, list items) become newlines
/// so paragraph structure survives; everything else is dropped.
pub fn strip_html(input: &str) -> (r: String)
    ensures
        r@ == strip_html_spec(input@),
{
    let v = chars_of(input);
    let out = strip_html_chars(v.as_slice());
    string_of(out.as_slice())
}

/// A free-text field shown as a table cell: HTML stripped, escaped, then truncated.
pub open spec fn cell_spec(html: Seq<char>, max_chars: nat) -> Seq<char> {
    truncate_spec(escape_cell_spec(strip_html_spec(html)), max_chars)
}

/// Strips HTML, escapes table cell characters, then truncates — the combo used
/// for any free text field shown as a table cell (ticket/task descriptions,
/// KB answers).
pub fn cell(html: &str, max_chars: usize) -> (r: String)
    ensures
        r@ == cell_spec(html@, max_chars as nat),
{
    let v = chars_of(html);
    let stripped = strip_html_chars(v.as_slice());
    let escaped = escape_cell_chars(stripped.as_slice());
    let t = truncate_chars(escaped.as_slice(), max_chars);
    string_of(t.as_slice())
}

/// The items of an array value; no items for any other value.
pub open spec fn array_items(v: JsonV) -> Seq<JsonV> {
    match v {
        JsonV::Array(items) => items,
        _ => Seq::empty(),
    }
}

/// Takes ownership of a JSON array without cloning it, defaulting to empty
/// when the value isn't an array.
pub fn into_array(value: Json) -> (r: Vec<Json>)
    ensures
        view_items(r@) == array_items(value@),
{
    match value {
        Json::Array(items) => items,
        _ => {
            let v: Vec<Json> = Vec::new();
            assert(view_items(v@) =~= Seq::<JsonV>::empty());
            v
        },
    }
}

/// The text of the string at `key`, or empty.
pub open spec fn str_field_spec(v: JsonV, key: Seq<char>) -> Seq<char> {
    match jget_str(v, key) {
        Some(s) => s,
        None => Seq::empty(),
    }
}

/// Reads a string field out of a JSON object, defaulting to empty.
pub fn str_field(value: &Json, key: &str) -> (r: String)
    ensures
        r@ == str_field_spec(value@, key@),
{
    match value.get_str(key) {
        Some(s) => copy_string(s),
        None => String::new(),
    }
}

/// A number or string at `key` as plain text, or empty.
pub open spec fn id_field_spec(v: JsonV, key: Seq<char>) -> Seq<char> {
    match jget(v, key) {
        Some(JsonV::Str(s)) => s,
        Some(JsonV::Int(n)) => int_text(n),
        Some(JsonV::Float(t)) => t,
        _ => Seq::empty(),
    }
}

/// Reads a numeric or string field out of a JSON object as a plain string,
/// defaulting to empty. Use for GLPI IDs, which come back as numbers on plain
/// item endpoints but as strings on `/search/*` endpoints.
pub fn id_field(value: &Json, key: &str) -> (r: String)
    ensures
        r@ == id_field_spec(value@, key@),
{
    match value.get(key) {
        Some(Json::Str(s)) => copy_string(s),
        Some(Json::Int(n)) => int_string(*n),
        Some(Json::Float(t)) => copy_string(t),
        _ => String::new(),
    }
}


proof fn lemma_replace_char_avoids(s: Seq<char>, c: char, r: Seq<char>, d: char)
    requires
        forall|i: int| 0 <= i < r.len() ==> r[i] != d,
        c == d || forall|i: int| 0 <= i < s.len() ==> s[i] != d,
    ensures
        forall|i: int| 0 <= i < replace_char(s, c, r).len() ==> replace_char(s, c, r)[i] != d,
    decreases s.len(),
{
    if s.len() > 0 {
        let p = s.drop_last();
        lemma_replace_char_avoids(p, c, r, d);
        let a = replace_char(p, c, r);
        let b = if s.last() == c { r } else { seq![s.last()] };
        assert(replace_char(s, c, r) == a + b);
        assert forall|i: int| 0 <= i < (a + b).len() implies (a + b)[i] != d by {
            if i >= a.len() {
                assert((a + b)[i] == b[i - a.len()]);
                if s.last() != c {
                    assert(s[s.len() - 1] != d || c == d);
                }
            } else {
                assert((a + b)[i] == a[i]);
            }
        }
    }
}

/// An escaped cell stays on one line: it holds no newline and no carriage return.
pub proof fn lemma_escaped_cell_is_one_line(s: Seq<char>)
    ensures
        forall|i: int| 0 <= i < escape_cell_spec(s).len() ==> escape_cell_spec(s)[i] != '\n' && escape_cell_spec(s)[i] != '\r',
{
    let a = replace_char(s, '|', seq!['\\', '|']);
    let b = replace_char(a, '\n', seq![' ']);
    lemma_replace_char_avoids(a, '\n', seq![' '], '\n');
    lemma_replace_char_avoids(b, '\r', seq![], '\r');
    lemma_replace_char_avoids(b, '\r', seq![], '\n');
}

} // verus!
