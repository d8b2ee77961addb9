//! Stripping response noise from GLPI payloads: the `links` arrays GLPI attaches to every
//! entity, and the inline `style="..."` attributes of rich text.
use vstd::prelude::*;
use crate::json::{copy_string, lemma_view_items_push, lemma_view_members_push, view_items, view_members, Json, JsonV};
use crate::text::{chars_eq_str, chars_of, contains, contains_exec, extend, find, find_from_exec, slice_chars, string_of, trim_end_char, trim_end_matches};
use crate::html::{lemma_find_bounds, lemma_find_shift, rest_of};

verus! {

broadcast use vstd::string::group_string_axioms;

/// The attribute opener whose attributes are dropped.
pub open spec fn style_needle() -> Seq<char> {
    seq!['s', 't', 'y', 'l', 'e', '=', '"']
}

/// `html` without its `style="..."` attributes (and the spaces before each). An attribute
/// whose closing quote is missing keeps everything from its start on.
pub open spec fn strip_styles_spec(s: Seq<char>) -> Seq<char>
    decreases s.len(),
{
    match find(s, style_needle()) {
        None => s,
        Some(pos) => {
            proof {
                lemma_find_bounds(s, style_needle());
            }
            let head = trim_end_char(s.take(pos), ' ');
            let after = s.subrange(pos + 7, s.len() as int);
            match find(after, seq!['"']) {
                Some(end) => {
                    proof {
                        lemma_find_bounds(after, seq!['"']);
                    }
                    head + strip_styles_spec(after.subrange(end + 1, after.len() as int))
                },
                None => head + s.subrange(pos, s.len() as int),
            }
        },
    }
}

/// Removes the inline style attributes of `html`.
pub fn strip_inline_styles(html: &[char]) -> (r: Vec<char>)
    ensures
        r@ == strip_styles_spec(html@),
{
    let needle = ['s', 't', 'y', 'l', 'e', '=', '"'];
    let quote = ['"'];
    assert(needle@ =~= style_needle());
    assert(quote@ =~= seq!['"']);
    let mut out: Vec<char> = Vec::new();
    let mut pos: usize = 0;
    assert(rest_of(html@, 0) =~= html@);
    while pos <= html.len()
        invariant
            pos <= html.len(),
            needle@ == style_needle(),
            quote@ == seq!['"'],
            strip_styles_spec(html@) == out@ + strip_styles_spec(rest_of(html@, pos as int)),
        decreases html.len() + 1 - pos,
    {
        let ghost rest = rest_of(html@, pos as int);
        proof {
            lemma_find_shift(html@, style_needle(), pos as int, 0);
        }
        match find_from_exec(html, &needle, pos) {
            None => {
                let tail = slice_chars(html, pos, html.len());
                extend(&mut out, tail.as_slice());
                return out;
            },
            Some(at) => {
                proof {
                    lemma_find_bounds(rest, style_needle());
                }
                let head = slice_chars(html, pos, at);
                assert(head@ =~= rest.take(at - pos));
                let trimmed = trim_end_matches(head.as_slice(), ' ');
                extend(&mut out, trimmed.as_slice());
                let after_start = at + 7;
                let ghost after = rest.subrange(at - pos + 7, rest.len() as int);
                assert(after =~= rest_of(html@, after_start as int));
                proof {
                    lemma_find_shift(html@, seq!['"'], after_start as int, 0);
                }
                match find_from_exec(html, &quote, after_start) {
                    Some(end) => {
                        proof {
                            lemma_find_bounds(after, seq!['"']);
                        }
                        assert(rest_of(html@, end + 1) =~= after.subrange(
                            end - after_start + 1,
                            after.len() as int,
                        ));
                        pos = end + 1;
                    },
                    None => {
                        let tail = slice_chars(html, at, html.len());
                        assert(tail@ =~= rest.subrange(at - pos, rest.len() as int));
                        extend(&mut out, tail.as_slice());
                        return out;
                    },
                }
            },
        }
    }
    out
}

/// The items of an array, each compacted.
pub open spec fn compact_items(s: Seq<JsonV>) -> Seq<JsonV>
    decreases s,
{
    if s.len() == 0 {
        Seq::empty()
    } else {
        compact_items(s.subrange(0, s.len() - 1)).push(compact_spec(s[s.len() - 1]))
    }
}

/// The members of an object, without `links` and each value compacted.
pub open spec fn compact_members(m: Seq<(Seq<char>, JsonV)>) -> Seq<(Seq<char>, JsonV)>
    decreases m,
{
    if m.len() == 0 {
        Seq::empty()
    } else {
        let rest = compact_members(m.subrange(0, m.len() - 1));
        let last = m[m.len() - 1];
        if last.0 == "links"@ {
            rest
        } else {
            rest.push((last.0, compact_spec(last.1)))
        }
    }
}

/// `v` with every `links` member removed and every string stripped of inline styles,
/// at every depth.
pub open spec fn compact_spec(v: JsonV) -> JsonV
    decreases v,
{
    match v {
        JsonV::Object(m) => JsonV::Object(compact_members(m)),
        JsonV::Array(items) => JsonV::Array(compact_items(items)),
        JsonV::Str(s) => if contains(s, style_needle()) {
            JsonV::Str(strip_styles_spec(s))
        } else {
            JsonV::Str(s)
        },
        _ => v,
    }
}

/// A compacted copy of `v`.
#[verifier::loop_isolation(false)]
pub fn compacted(v: &Json) -> (r: Json)
    ensures
        r@ == compact_spec(v@),
    decreases v,
{
    match v {
        Json::Object(members) => {
            let mut out: Vec<(String, Json)> = Vec::new();
            let mut i: usize = 0;
            while i < members.len()
                invariant
                    i <= members.len(),
                    view_members(out@) == compact_members(view_members(members@).take(i as int)),
                decreases members.len() - i,
            {
                let ghost m = view_members(members@);
                assert(m.take(i + 1).subrange(0, i as int) =~= m.take(i as int));
                assert(m.take(i + 1)[i as int] == m[i as int]);
                let key_chars = chars_of(members[i].0.as_str());
                if !chars_eq_str(key_chars.as_slice(), "links") {
                    proof {
                        assert(decreases_to!(members@ => members@[i as int]));
                        assert(decreases_to!(members@[i as int] => members@[i as int].1));
                    }
                    let val = compacted(&members[i].1);
                    let key = copy_string(&members[i].0);
                    proof {
                        lemma_view_members_push(out@, (key, val));
                    }
                    out.push((key, val));
                }
                i = i + 1;
            }
            assert(view_members(members@).take(members.len() as int) =~= view_members(members@));
            Json::Object(out)
        },
        Json::Array(items) => {
            let mut out: Vec<Json> = Vec::new();
            let mut i: usize = 0;
            while i < items.len()
                invariant
                    i <= items.len(),
                    view_items(out@) == compact_items(view_items(items@).take(i as int)),
                decreases items.len() - i,
            {
                let ghost s = view_items(items@);
                assert(s.take(i + 1).subrange(0, i as int) =~= s.take(i as int));
                assert(s.take(i + 1)[i as int] == s[i as int]);
                proof {
                    assert(decreases_to!(items@ => items@[i as int]));
                }
                let c = compacted(&items[i]);
                proof {
                    lemma_view_items_push(out@, c);
                }
                out.push(c);
                i = i + 1;
            }
            assert(view_items(items@).take(items.len() as int) =~= view_items(items@));
            Json::Array(out)
        },
        Json::Str(s) => {
            let chars = chars_of(s.as_str());
            let needle = ['s', 't', 'y', 'l', 'e', '=', '"'];
            assert(needle@ =~= style_needle());
            if contains_exec(chars.as_slice(), &needle) {
                let stripped = strip_inline_styles(chars.as_slice());
                Json::Str(string_of(stripped.as_slice()))
            } else {
                Json::Str(copy_string(s))
            }
        },
        _ => v.deep_clone(),
    }
}

/// Strips GLPI response noise that burns tokens without carrying information: the `links`
/// array GLPI attaches to every entity, and the `style="..."` attributes the WYSIWYG editor
/// repeats in rich text fields. Applied recursively.
pub fn compact_value(value: &mut Json)
    ensures
        final(value)@ == compact_spec(old(value)@),
{
    let c = compacted(value);
    *value = c;
}


/// Whether no object inside `v`, at any depth, has a `links` member.
pub open spec fn links_free(v: JsonV) -> bool
    decreases v,
{
    match v {
        JsonV::Object(m) => forall|i: int| 0 <= i < m.len() ==> m[i].0 != "links"@ && links_free(#[trigger] m[i].1),
        JsonV::Array(items) => forall|i: int| 0 <= i < items.len() ==> links_free(#[trigger] items[i]),
        _ => true,
    }
}

/// Compacting leaves no `links` member anywhere.
pub proof fn lemma_compact_links_free(v: JsonV)
    ensures
        links_free(compact_spec(v)),
    decreases v,
{
    match v {
        JsonV::Object(m) => {
            lemma_members_links_free(m);
            let c = compact_members(m);
            assert(compact_spec(v) == JsonV::Object(c));
            assert forall|i: int| 0 <= i < c.len() implies c[i].0 != "links"@ && links_free(#[trigger] c[i].1) by {
                assert(c[i].0 != "links"@);
            }
        },
        JsonV::Array(items) => {
            lemma_items_links_free(items);
            let c = compact_items(items);
            assert(compact_spec(v) == JsonV::Array(c));
        },
        _ => {},
    }
}

proof fn lemma_members_links_free(m: Seq<(Seq<char>, JsonV)>)
    ensures
        forall|i: int| 0 <= i < compact_members(m).len() ==> (#[trigger] compact_members(m)[i]).0 != "links"@ && links_free(compact_members(m)[i].1),
    decreases m,
{
    if m.len() > 0 {
        let p = m.subrange(0, m.len() - 1);
        lemma_members_links_free(p);
        let last = m[m.len() - 1];
        let r = compact_members(p);
        let c = compact_members(m);
        if last.0 != "links"@ {
            lemma_compact_links_free(last.1);
            assert(c == r.push((last.0, compact_spec(last.1))));
            assert forall|i: int| 0 <= i < c.len() implies (#[trigger] c[i]).0 != "links"@ && links_free(c[i].1) by {
                if i < r.len() {
                    assert(c[i] == r[i]);
                }
            }
        } else {
            assert(c == r);
        }
    }
}

proof fn lemma_items_links_free(s: Seq<JsonV>)
    ensures
        forall|i: int| 0 <= i < compact_items(s).len() ==> links_free(#[trigger] compact_items(s)[i]),
    decreases s,
{
    if s.len() > 0 {
        let p = s.subrange(0, s.len() - 1);
        lemma_items_links_free(p);
        lemma_compact_links_free(s[s.len() - 1]);
        let r = compact_items(p);
        assert forall|i: int| 0 <= i < r.push(compact_spec(s[s.len() - 1])).len() implies links_free(#[trigger] r.push(compact_spec(s[s.len() - 1]))[i]) by {
            if i < r.len() {
                assert(r.push(compact_spec(s[s.len() - 1]))[i] == r[i]);
            }
        }
    }
}

} // verus!
