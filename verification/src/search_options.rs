//! Discovery of GLPI's search-option field ids by column name. Their numbering differs
//! between GLPI 10 and 11 (KnowbaseItem's title field, for one), so the ids are looked up
//! by the stable column name, with the GLPI 10 numbering as the fallback.
use vstd::prelude::*;
use crate::call::{get, get_v, path_text, Call, CallV};
use crate::error::GlpiError;
use crate::json::{copy_string, jget, jget_str, member, owned, view_members, Json, JsonV};
use crate::step::reply_view;
use crate::text::{chars_of, lowercase, str_lowercase, string_of, trim, trim_ws};

verus! {

broadcast use vstd::string::group_string_axioms;

/// Whether every char of `s` is an ASCII digit (so also when `s` is empty).
pub open spec fn all_digits(s: Seq<char>) -> bool {
    forall|i: int| 0 <= i < s.len() ==> '0' <= #[trigger] s[i] <= '9'
}

/// The column name of `column`, when `m` maps it.
pub open spec fn lookup_column(m: Seq<(Seq<char>, Seq<char>)>, column: Seq<char>) -> Option<Seq<char>>
    decreases m.len(),
{
    if m.len() == 0 {
        None
    } else if m[0].0 == column {
        Some(m[0].1)
    } else {
        lookup_column(m.drop_first(), column)
    }
}

/// The column that a search option names: its `field`, trimmed and lowercased, when that is a
/// string; none when it is missing, or empty once trimmed.
pub open spec fn option_column(meta: JsonV) -> Option<Seq<char>> {
    match jget_str(meta, "field"@) {
        Some(f) => {
            let c = str_lowercase(trim_ws(f));
            if c.len() > 0 { Some(c) } else { None }
        },
        None => None,
    }
}

/// The column-to-id mapping of the search options, in their order: an option counts when its
/// id is all digits and it names a column; the first id of a column wins.
pub open spec fn mapping_of(members: Seq<(Seq<char>, JsonV)>) -> Seq<(Seq<char>, Seq<char>)>
    decreases members.len(),
{
    if members.len() == 0 {
        Seq::empty()
    } else {
        let m = mapping_of(members.drop_last());
        let (id, meta) = members.last();
        match option_column(meta) {
            Some(c) => if all_digits(id) && lookup_column(m, c) is None {
                m.push((c, id))
            } else {
                m
            },
            None => m,
        }
    }
}

/// The mapping read from a `listSearchOptions` reply: nothing when the call failed, when
/// the reply is not an object, or when it is an error object (with `error` and `detail`).
pub open spec fn reply_mapping(reply: Result<JsonV, Seq<char>>) -> Seq<(Seq<char>, Seq<char>)> {
    match reply {
        Ok(JsonV::Object(members)) => if member(members, "error"@) is Some && member(members, "detail"@) is Some {
            Seq::empty()
        } else {
            mapping_of(members)
        },
        _ => Seq::empty(),
    }
}

/// The pairs of a mapping as texts.
pub open spec fn mapping_view(m: Seq<(String, String)>) -> Seq<(Seq<char>, Seq<char>)> {
    m.map_values(|p: (String, String)| (p.0@, p.1@))
}

/// Reads the search options of an item type.
pub fn search_options_call(itemtype: &str) -> (c: Call)
    ensures
        crate::call::call_view(c) == get_v("/listSearchOptions/"@ + itemtype@),
{
    let path = path_text("/listSearchOptions/", itemtype, "");
    proof {
        reveal_strlit("");
    }
    assert(path@ =~= "/listSearchOptions/"@ + itemtype@);
    get(path)
}

fn find_column(m: &Vec<(String, String)>, column: &str) -> (r: Option<usize>)
    ensures
        match r {
            Some(i) => i < m.len() && lookup_column(mapping_view(m@), column@) == Some(m@[i as int].1@),
            None => lookup_column(mapping_view(m@), column@) is None,
        },
{
    let ghost mv = mapping_view(m@);
    let mut i: usize = 0;
    assert(mv.skip(0) =~= mv);
    while i < m.len()
        invariant
            i <= m.len(),
            mv == mapping_view(m@),
            lookup_column(mv, column@) == lookup_column(mv.skip(i as int), column@),
        decreases m.len() - i,
    {
        assert(mv.skip(i as int).drop_first() =~= mv.skip(i + 1));
        let c = chars_of(m[i].0.as_str());
        if crate::text::chars_eq_str(c.as_slice(), column) {
            return Some(i);
        }
        i = i + 1;
    }
    None
}

fn all_digits_exec(s: &str) -> (r: bool)
    ensures
        r == all_digits(s@),
{
    let c = chars_of(s);
    let mut i: usize = 0;
    while i < c.len()
        invariant
            i <= c.len(),
            c@ == s@,
            forall|k: int| 0 <= k < i ==> '0' <= #[trigger] c@[k] <= '9',
        decreases c.len() - i,
    {
        if !('0' <= c[i] && c[i] <= '9') {
            return false;
        }
        i = i + 1;
    }
    true
}

fn option_column_exec(meta: &Json) -> (r: Option<String>)
    ensures
        match r {
            Some(c) => option_column(meta@) == Some(c@),
            None => option_column(meta@) is None,
        },
{
    match meta.get_str("field") {
        Some(f) => {
            let t = string_of(trim(chars_of(f.as_str()).as_slice()).as_slice());
            let c = lowercase(t.as_str());
            if c.as_str().is_empty() {
                None
            } else {
                Some(c)
            }
        },
        None => None,
    }
}

/// The column-to-id mapping from a `listSearchOptions` reply.
pub fn search_mapping(reply: Result<Json, GlpiError>) -> (r: Vec<(String, String)>)
    ensures
        mapping_view(r@) == reply_mapping(reply_view(reply)),
{
    let mut out: Vec<(String, String)> = Vec::new();
    assert(mapping_view(out@) =~= Seq::<(Seq<char>, Seq<char>)>::empty());
    let v = match reply {
        Ok(v) => v,
        Err(_) => return out,
    };
    if v.get("error").is_some() && v.get("detail").is_some() {
        return out;
    }
    let members = match v {
        Json::Object(m) => m,
        _ => return out,
    };
    let ghost mv = view_members(members@);
    let mut i: usize = 0;
    while i < members.len()
        invariant
            i <= members.len(),
            mv == view_members(members@),
            mapping_view(out@) == mapping_of(mv.take(i as int)),
        decreases members.len() - i,
    {
        assert(mv.take(i + 1).drop_last() =~= mv.take(i as int));
        let (id, meta) = &members[i];
        assert(mv.take(i + 1).last() == (id@, meta@));
        match option_column_exec(meta) {
            Some(c) => {
                if all_digits_exec(id.as_str()) && find_column(&out, c.as_str()).is_none() {
                    let ghost old_out = out@;
                    let ghost cv = c@;
                    out.push((c, copy_string(id)));
                    assert(mapping_view(out@) =~= mapping_view(old_out).push((cv, id@)));
                }
            },
            None => {},
        }
        i = i + 1;
    }
    assert(mv.take(members.len() as int) =~= mv);
    out
}

/// The field id of `column` (looked up lowercased), or `default` when the mapping lacks it.
pub open spec fn resolve_field_spec(m: Seq<(Seq<char>, Seq<char>)>, column: Seq<char>, default: Seq<char>) -> Seq<char> {
    match lookup_column(m, str_lowercase(column)) {
        Some(id) => id,
        None => default,
    }
}

/// Resolves a search field id by column name, falling back to `default` (GLPI 10's number).
pub fn resolve_field(m: &Vec<(String, String)>, column: &str, default: &str) -> (r: String)
    ensures
        r@ == resolve_field_spec(mapping_view(m@), column@, default@),
{
    let key = lowercase(column);
    match find_column(m, key.as_str()) {
        Some(i) => copy_string(&m[i].1),
        None => owned(default),
    }
}


/// No item type occurs twice among the cache's entries.
pub open spec fn types_distinct(entries: Seq<(Seq<char>, Seq<(Seq<char>, Seq<char>)>)>) -> bool {
    forall|i: int, j: int| 0 <= i < j < entries.len() ==> #[trigger] entries[i].0 != #[trigger] entries[j].0
}

/// Whether `entries` hold an entry for `itemtype`.
pub open spec fn has_type(entries: Seq<(Seq<char>, Seq<(Seq<char>, Seq<char>)>)>, itemtype: Seq<char>) -> bool {
    exists|i: int| 0 <= i < entries.len() && #[trigger] entries[i].0 == itemtype
}

/// The mapping stored for `itemtype` in `entries`, where they hold one.
pub open spec fn stored_mapping(entries: Seq<(Seq<char>, Seq<(Seq<char>, Seq<char>)>)>, itemtype: Seq<char>) -> Seq<(Seq<char>, Seq<char>)> {
    entries[choose|i: int| 0 <= i < entries.len() && #[trigger] entries[i].0 == itemtype].1
}

/// The cache's entries as a map from item type to mapping.
pub open spec fn entries_map(entries: Seq<(Seq<char>, Seq<(Seq<char>, Seq<char>)>)>) -> Map<Seq<char>, Seq<(Seq<char>, Seq<char>)>> {
    Map::new(|t: Seq<char>| has_type(entries, t), |t: Seq<char>| stored_mapping(entries, t))
}

/// With distinct item types, the entry at `j` is the one stored for its item type.
proof fn lemma_stored_at(entries: Seq<(Seq<char>, Seq<(Seq<char>, Seq<char>)>)>, j: int)
    requires
        types_distinct(entries),
        0 <= j < entries.len(),
    ensures
        has_type(entries, entries[j].0),
        stored_mapping(entries, entries[j].0) == entries[j].1,
{
    let t = entries[j].0;
    assert(0 <= j < entries.len() && entries[j].0 == t);
    let k = choose|i: int| 0 <= i < entries.len() && #[trigger] entries[i].0 == t;
    if k != j {
        if k < j {
            assert(entries[k].0 != entries[j].0);
        } else {
            assert(entries[j].0 != entries[k].0);
        }
    }
}

/// Writing entry `i` (or a new last entry, `i == entries.len()`) with `itemtype`, where no
/// other entry has that item type, sets `itemtype` in the map and keeps the rest.
proof fn lemma_entries_write(
    entries: Seq<(Seq<char>, Seq<(Seq<char>, Seq<char>)>)>,
    i: int,
    itemtype: Seq<char>,
    m: Seq<(Seq<char>, Seq<char>)>,
)
    requires
        types_distinct(entries),
        0 <= i <= entries.len(),
        i < entries.len() ==> entries[i].0 == itemtype,
        i == entries.len() ==> !has_type(entries, itemtype),
    ensures
        types_distinct(if i < entries.len() { entries.update(i, (itemtype, m)) } else { entries.push((itemtype, m)) }),
        entries_map(if i < entries.len() { entries.update(i, (itemtype, m)) } else { entries.push((itemtype, m)) })
            == entries_map(entries).insert(itemtype, m),
{
    let e2 = if i < entries.len() { entries.update(i, (itemtype, m)) } else { entries.push((itemtype, m)) };
    assert(e2.len() == if i < entries.len() { entries.len() } else { entries.len() + 1 });
    assert forall|a: int| 0 <= a < e2.len() implies #[trigger] e2[a].0 == (if a == i { itemtype } else { entries[a].0 }) by {}
    assert forall|a: int, b: int| 0 <= a < b < e2.len() implies #[trigger] e2[a].0 != #[trigger] e2[b].0 by {
        if a != i && b != i {
            assert(entries[a].0 != entries[b].0);
        } else if a == i {
            if i == entries.len() {
                assert(false);
            } else {
                assert(entries[a].0 != entries[b].0);
            }
        } else {
            if i == entries.len() {
                assert(entries[a].0 == e2[a].0);
                assert(!(0 <= a < entries.len() && entries[a].0 == itemtype));
            } else {
                assert(entries[a].0 != entries[b].0);
            }
        }
    }
    let m2 = entries_map(e2);
    let m1 = entries_map(entries).insert(itemtype, m);
    assert forall|t: Seq<char>| #[trigger] m2.dom().contains(t) <==> m1.dom().contains(t) by {
        if has_type(e2, t) {
            let a = choose|a: int| 0 <= a < e2.len() && #[trigger] e2[a].0 == t;
            if a != i {
                assert(0 <= a < entries.len() && entries[a].0 == t);
            }
        }
        if t != itemtype && has_type(entries, t) {
            let a = choose|a: int| 0 <= a < entries.len() && #[trigger] entries[a].0 == t;
            assert(a != i);
            assert(0 <= a < e2.len() && e2[a].0 == t);
        }
        if t == itemtype {
            assert(0 <= i < e2.len() && e2[i].0 == t);
        }
    }
    assert forall|t: Seq<char>| #[trigger] m2.dom().contains(t) implies m2[t] == m1[t] by {
        let a = choose|a: int| 0 <= a < e2.len() && #[trigger] e2[a].0 == t;
        lemma_stored_at(e2, a);
        if a == i {
            assert(e2[a].1 == m);
        } else {
            assert(e2[a] == entries[a]);
            lemma_stored_at(entries, a);
        }
    }
    assert(m2 =~= m1);
}

/// The column-to-id mappings discovered so far, by item type, so that each item type's
/// search options are read once.
pub struct SearchOptionsCache {
    entries: Vec<(String, Vec<(String, String)>)>,
}

fn copy_mapping(m: &Vec<(String, String)>) -> (r: Vec<(String, String)>)
    ensures
        mapping_view(r@) == mapping_view(m@),
{
    let mut out: Vec<(String, String)> = Vec::new();
    let mut i: usize = 0;
    while i < m.len()
        invariant
            i <= m.len(),
            mapping_view(out@) == mapping_view(m@).take(i as int),
        decreases m.len() - i,
    {
        let ghost old_out = out@;
        let e = (copy_string(&m[i].0), copy_string(&m[i].1));
        out.push(e);
        assert(mapping_view(out@) =~= mapping_view(old_out).push((e.0@, e.1@)));
        i = i + 1;
        assert(mapping_view(out@) =~= mapping_view(m@).take(i as int));
    }
    assert(mapping_view(m@).take(m.len() as int) =~= mapping_view(m@));
    out
}

/// The entries of `v` as item types with their mappings.
pub open spec fn entries_of(v: Seq<(String, Vec<(String, String)>)>) -> Seq<(Seq<char>, Seq<(Seq<char>, Seq<char>)>)> {
    v.map_values(|e: (String, Vec<(String, String)>)| (e.0@, mapping_view(e.1@)))
}

/// The index of the entry for `itemtype`, if any.
fn find_type(entries: &Vec<(String, Vec<(String, String)>)>, itemtype: &str) -> (r: Option<usize>)
    ensures
        match r {
            Some(i) => i < entries.len() && entries@[i as int].0@ == itemtype@,
            None => !has_type(entries_of(entries@), itemtype@),
        },
{
    let ghost ev = entries_of(entries@);
    let mut i: usize = 0;
    while i < entries.len()
        invariant
            i <= entries.len(),
            ev == entries_of(entries@),
            ev.len() == entries.len(),
            forall|k: int| 0 <= k < i ==> #[trigger] ev[k].0 != itemtype@,
        decreases entries.len() - i,
    {
        assert(ev[i as int].0 == entries@[i as int].0@);
        let c = chars_of(entries[i].0.as_str());
        if crate::text::chars_eq_str(c.as_slice(), itemtype) {
            return Some(i);
        }
        i = i + 1;
    }
    None
}

impl SearchOptionsCache {
    /// The cache's entries as item types with their mappings.
    closed spec fn entries_view(&self) -> Seq<(Seq<char>, Seq<(Seq<char>, Seq<char>)>)> {
        entries_of(self.entries@)
    }

    /// Each item type is stored once.
    #[verifier::type_invariant]
    closed spec fn each_type_once(&self) -> bool {
        types_distinct(self.entries_view())
    }

    /// An empty cache.
    pub fn new() -> (c: Self)
        ensures
            c@ == Map::<Seq<char>, Seq<(Seq<char>, Seq<char>)>>::empty(),
    {
        let c = SearchOptionsCache { entries: Vec::new() };
        assert(c.entries_view() =~= Seq::empty());
        assert(c@ =~= Map::<Seq<char>, Seq<(Seq<char>, Seq<char>)>>::empty());
        c
    }

    /// A copy of the mapping cached for `itemtype`.
    pub fn get(&self, itemtype: &str) -> (r: Option<Vec<(String, String)>>)
        ensures
            match r {
                Some(m) => self@.get(itemtype@) == Some(mapping_view(m@)),
                None => self@.get(itemtype@) is None,
            },
    {
        proof {
            use_type_invariant(self);
        }
        match find_type(&self.entries, itemtype) {
            Some(i) => {
                proof {
                    lemma_stored_at(self.entries_view(), i as int);
                }
                Some(copy_mapping(&self.entries[i].1))
            },
            None => None,
        }
    }

    /// Stores the mapping discovered for `itemtype`; the other item types keep theirs.
    pub fn insert(&mut self, itemtype: &str, mapping: Vec<(String, String)>)
        ensures
            final(self)@ == old(self)@.insert(itemtype@, mapping_view(mapping@)),
    {
        proof {
            use_type_invariant(&*self);
        }
        let ghost before = self.entries_view();
        let ghost mv = mapping_view(mapping@);
        let mut entries: Vec<(String, Vec<(String, String)>)> = Vec::new();
        std::mem::swap(&mut entries, &mut self.entries);
        assert(entries_of(entries@) == before);
        match find_type(&entries, itemtype) {
            Some(i) => {
                proof {
                    lemma_entries_write(before, i as int, itemtype@, mv);
                }
                entries.set(i, (owned(itemtype), mapping));
                assert(entries_of(entries@) =~= before.update(i as int, (itemtype@, mv)));
            },
            None => {
                proof {
                    lemma_entries_write(before, before.len() as int, itemtype@, mv);
                }
                entries.push((owned(itemtype), mapping));
                assert(entries_of(entries@) =~= before.push((itemtype@, mv)));
            },
        }
        self.entries = entries;
    }
}

impl View for SearchOptionsCache {
    type V = Map<Seq<char>, Seq<(Seq<char>, Seq<char>)>>;

    /// The mapping discovered for each item type so far.
    closed spec fn view(&self) -> Self::V {
        entries_map(self.entries_view())
    }
}

/// What a lookup of an item type's search options does: take the mapping from the cache,
/// or, when it is not there, read the search options.
pub enum Lookup {
    Cached(Vec<(String, String)>),
    Fetch(Call),
}

/// A lookup as values.
pub enum LookupV {
    Cached(Seq<(Seq<char>, Seq<char>)>),
    Fetch(CallV),
}

/// A lookup as values.
pub open spec fn lookup_view(l: Lookup) -> LookupV {
    match l {
        Lookup::Cached(m) => LookupV::Cached(mapping_view(m@)),
        Lookup::Fetch(c) => LookupV::Fetch(crate::call::call_view(c)),
    }
}

/// The lookup of `itemtype` against the cache `k`: the cached mapping, else the
/// `listSearchOptions` call.
pub open spec fn lookup_spec(k: Map<Seq<char>, Seq<(Seq<char>, Seq<char>)>>, itemtype: Seq<char>) -> LookupV {
    match k.get(itemtype) {
        Some(m) => LookupV::Cached(m),
        None => LookupV::Fetch(get_v("/listSearchOptions/"@ + itemtype)),
    }
}

/// The mapping that a lookup of `itemtype` ends with, `reply` being the answer to its call
/// where it makes one.
pub open spec fn lookup_result(
    k: Map<Seq<char>, Seq<(Seq<char>, Seq<char>)>>,
    itemtype: Seq<char>,
    reply: Result<JsonV, Seq<char>>,
) -> Seq<(Seq<char>, Seq<char>)> {
    match k.get(itemtype) {
        Some(m) => m,
        None => reply_mapping(reply),
    }
}

/// The cache after a lookup of `itemtype`: a mapping read from a reply is stored, also
/// when it is empty; a cached one leaves the cache as it was.
pub open spec fn lookup_cache(
    k: Map<Seq<char>, Seq<(Seq<char>, Seq<char>)>>,
    itemtype: Seq<char>,
    reply: Result<JsonV, Seq<char>>,
) -> Map<Seq<char>, Seq<(Seq<char>, Seq<char>)>> {
    k.insert(itemtype, lookup_result(k, itemtype, reply))
}

/// The cache after a run of lookups, each an item type with the reply its call would get.
pub open spec fn run_lookups(
    k: Map<Seq<char>, Seq<(Seq<char>, Seq<char>)>>,
    steps: Seq<(Seq<char>, Result<JsonV, Seq<char>>)>,
) -> Map<Seq<char>, Seq<(Seq<char>, Seq<char>)>>
    decreases steps.len(),
{
    if steps.len() == 0 {
        k
    } else {
        run_lookups(lookup_cache(k, steps[0].0, steps[0].1), steps.drop_first())
    }
}

/// Starts a lookup of `itemtype`'s search options.
pub fn lookup_start(cache: &SearchOptionsCache, itemtype: &str) -> (r: Lookup)
    ensures
        lookup_view(r) == lookup_spec(cache@, itemtype@),
{
    match cache.get(itemtype) {
        Some(m) => Lookup::Cached(m),
        None => Lookup::Fetch(search_options_call(itemtype)),
    }
}

/// Ends a lookup that read the search options: the mapping of the reply, which the cache
/// now holds for `itemtype`.
pub fn lookup_finish(cache: &mut SearchOptionsCache, itemtype: &str, reply: Result<Json, GlpiError>) -> (r: Vec<(String, String)>)
    ensures
        mapping_view(r@) == reply_mapping(reply_view(reply)),
        final(cache)@ == old(cache)@.insert(itemtype@, mapping_view(r@)),
{
    let m = search_mapping(reply);
    cache.insert(itemtype, copy_mapping(&m));
    m
}

/// Once a lookup of an item type has ended, whatever lookups follow, of that item type or
/// of others, a later lookup of it takes the same mapping from the cache and sends no call,
/// whatever reply a call would have had. So a column resolves to the same id as before, and
/// any column resolves from that mapping.
pub proof fn lemma_lookup_is_cached(
    k: Map<Seq<char>, Seq<(Seq<char>, Seq<char>)>>,
    itemtype: Seq<char>,
    reply: Result<JsonV, Seq<char>>,
    steps: Seq<(Seq<char>, Result<JsonV, Seq<char>>)>,
    later_reply: Result<JsonV, Seq<char>>,
    column: Seq<char>,
    default: Seq<char>,
)
    ensures
        ({
            let m = lookup_result(k, itemtype, reply);
            let k2 = run_lookups(lookup_cache(k, itemtype, reply), steps);
            &&& lookup_spec(k2, itemtype) == LookupV::Cached(m)
            &&& lookup_result(k2, itemtype, later_reply) == m
            &&& resolve_field_spec(lookup_result(k2, itemtype, later_reply), column, default)
                == resolve_field_spec(m, column, default)
        }),
{
    lemma_run_keeps(lookup_cache(k, itemtype, reply), itemtype, lookup_result(k, itemtype, reply), steps);
}

/// A run of lookups keeps a mapping that the cache holds.
proof fn lemma_run_keeps(
    k: Map<Seq<char>, Seq<(Seq<char>, Seq<char>)>>,
    itemtype: Seq<char>,
    m: Seq<(Seq<char>, Seq<char>)>,
    steps: Seq<(Seq<char>, Result<JsonV, Seq<char>>)>,
)
    requires
        k.get(itemtype) == Some(m),
    ensures
        run_lookups(k, steps).get(itemtype) == Some(m),
    decreases steps.len(),
{
    if steps.len() > 0 {
        let k1 = lookup_cache(k, steps[0].0, steps[0].1);
        if steps[0].0 == itemtype {
            assert(lookup_result(k, itemtype, steps[0].1) == m);
        }
        assert(k1.get(itemtype) == Some(m));
        lemma_run_keeps(k1, itemtype, m, steps.drop_first());
    }
}

} // verus!
