//! Tallies of labels, and their rendering as a table sorted by count.
use vstd::prelude::*;
use crate::markdown::{escape_cell, escape_cell_chars, escape_cell_spec, rows_view, strings_view, strs_view, table, table_spec};
use crate::text::{chars_of, extend_str, int_string, int_text, push_int, slice_chars, string_of};
use crate::labels::table_view;
use std::collections::HashMap;
use vstd::std_specs::iter::IteratorSpec;

verus! {

broadcast use {vstd::string::group_string_axioms, vstd::seq_lib::group_to_multiset_ensures, vstd::multiset::group_multiset_axioms};

/// Lexicographic order on texts: char by char, a proper prefix first. This is the order
/// of `str`, since UTF-8 keeps the order of code points.
pub open spec fn text_lt(a: Seq<char>, b: Seq<char>) -> bool
    decreases a.len(),
{
    if b.len() == 0 {
        false
    } else if a.len() == 0 {
        true
    } else if a[0] != b[0] {
        a[0] < b[0]
    } else {
        text_lt(a.drop_first(), b.drop_first())
    }
}

proof fn lemma_text_lt_irreflexive(a: Seq<char>)
    ensures
        !text_lt(a, a),
    decreases a.len(),
{
    if a.len() > 0 {
        lemma_text_lt_irreflexive(a.drop_first());
    }
}

proof fn lemma_text_lt_total(a: Seq<char>, b: Seq<char>)
    ensures
        a == b || text_lt(a, b) || text_lt(b, a),
    decreases a.len(),
{
    if a.len() > 0 && b.len() > 0 && a[0] == b[0] {
        lemma_text_lt_total(a.drop_first(), b.drop_first());
        if a.drop_first() == b.drop_first() {
            assert(a =~= seq![a[0]] + a.drop_first());
            assert(b =~= seq![b[0]] + b.drop_first());
        }
    } else if a.len() == 0 && b.len() == 0 {
        assert(a =~= b);
    } else if a.len() > 0 && b.len() > 0 {
        assert(a[0] < b[0] || b[0] < a[0]);
    }
}

proof fn lemma_text_lt_asym(a: Seq<char>, b: Seq<char>)
    ensures
        !(text_lt(a, b) && text_lt(b, a)),
    decreases a.len(),
{
    if a.len() > 0 && b.len() > 0 && a[0] == b[0] {
        lemma_text_lt_asym(a.drop_first(), b.drop_first());
    }
}

proof fn lemma_text_lt_trans(a: Seq<char>, b: Seq<char>, c: Seq<char>)
    requires
        text_lt(a, b),
        text_lt(b, c),
    ensures
        text_lt(a, c),
    decreases a.len(),
{
    if a.len() > 0 && b.len() > 0 && c.len() > 0 && a[0] == b[0] && b[0] == c[0] {
        lemma_text_lt_trans(a.drop_first(), b.drop_first(), c.drop_first());
    }
}

/// Whether `a` is ordered before `b`.
pub fn text_lt_exec(a: &[char], b: &[char]) -> (r: bool)
    ensures
        r == text_lt(a@, b@),
{
    let mut i: usize = 0;
    assert(a@.skip(0) =~= a@);
    assert(b@.skip(0) =~= b@);
    while i < a.len() && i < b.len() && a[i] == b[i]
        invariant
            i <= a.len(),
            i <= b.len(),
            text_lt(a@, b@) == text_lt(a@.skip(i as int), b@.skip(i as int)),
        decreases a.len() - i,
    {
        assert(a@.skip(i as int).drop_first() =~= a@.skip(i + 1));
        assert(b@.skip(i as int).drop_first() =~= b@.skip(i + 1));
        i = i + 1;
    }
    if i == b.len() {
        false
    } else if i == a.len() {
        true
    } else {
        a[i] < b[i]
    }
}

/// A label with its count.
pub type Tally = (Seq<char>, int);

/// `a` is listed before `b`: higher count first, then by label.
pub open spec fn before(a: Tally, b: Tally) -> bool {
    a.1 > b.1 || (a.1 == b.1 && text_lt(a.0, b.0))
}

/// The first index from `k` on whose entry is not listed before `x`.
pub open spec fn insert_pos(s: Seq<Tally>, x: Tally, k: int) -> int
    decreases s.len() - k,
{
    if k >= s.len() {
        s.len() as int
    } else if before(s[k], x) {
        insert_pos(s, x, k + 1)
    } else {
        k
    }
}

/// `s` with `x` inserted in front of the first entry not listed before it.
pub open spec fn insert_sorted(s: Seq<Tally>, x: Tally) -> Seq<Tally> {
    let p = insert_pos(s, x, 0);
    s.take(p) + seq![x] + s.skip(p)
}

/// The entries sorted by count (highest first), then by label.
pub open spec fn sort_tallies(s: Seq<Tally>) -> Seq<Tally>
    decreases s.len(),
{
    if s.len() == 0 {
        Seq::empty()
    } else {
        insert_sorted(sort_tallies(s.drop_last()), s.last())
    }
}

/// Every entry is listed before the ones after it.
pub open spec fn is_sorted(s: Seq<Tally>) -> bool {
    forall|i: int, j: int| 0 <= i < j < s.len() ==> before(s[i], s[j])
}

/// No label occurs twice.
pub open spec fn distinct_labels(s: Seq<Tally>) -> bool {
    forall|i: int, j: int| 0 <= i < j < s.len() ==> s[i].0 != s[j].0
}

proof fn lemma_insert_pos(s: Seq<Tally>, x: Tally, k: int)
    requires
        0 <= k <= s.len(),
    ensures
        k <= insert_pos(s, x, k) <= s.len(),
        forall|i: int| k <= i < insert_pos(s, x, k) ==> before(s[i], x),
        insert_pos(s, x, k) < s.len() ==> !before(s[insert_pos(s, x, k)], x),
    decreases s.len() - k,
{
    if k < s.len() && before(s[k], x) {
        lemma_insert_pos(s, x, k + 1);
    }
}

proof fn lemma_before_total(a: Tally, b: Tally)
    requires
        a.0 != b.0,
    ensures
        before(a, b) || before(b, a),
        !(before(a, b) && before(b, a)),
{
    lemma_text_lt_total(a.0, b.0);
    lemma_text_lt_asym(a.0, b.0);
}

proof fn lemma_before_trans(a: Tally, b: Tally, c: Tally)
    requires
        before(a, b),
        before(b, c),
    ensures
        before(a, c),
{
    if a.1 == b.1 && b.1 == c.1 {
        lemma_text_lt_trans(a.0, b.0, c.0);
    }
}

proof fn lemma_before_irreflexive(a: Tally)
    ensures
        !before(a, a),
{
    lemma_text_lt_irreflexive(a.0);
}

/// Sorting gives a sorted list of the same entries, and keeps labels distinct.
pub proof fn lemma_sort_tallies(s: Seq<Tally>)
    requires
        distinct_labels(s),
    ensures
        is_sorted(sort_tallies(s)),
        distinct_labels(sort_tallies(s)),
        sort_tallies(s).to_multiset() == s.to_multiset(),
        sort_tallies(s).len() == s.len(),
    decreases s.len(),
{
    if s.len() > 0 {
        let t = s.drop_last();
        assert(distinct_labels(t)) by {
            assert forall|i: int, j: int| 0 <= i < j < t.len() implies t[i].0 != t[j].0 by {
                assert(t[i] == s[i] && t[j] == s[j]);
            }
        }
        lemma_sort_tallies(t);
        let st = sort_tallies(t);
        let x = s.last();
        let p = insert_pos(st, x, 0);
        lemma_insert_pos(st, x, 0);
        let r = st.take(p) + seq![x] + st.skip(p);
        assert(sort_tallies(s) == r);
        // x's label is new.
        assert forall|i: int| 0 <= i < st.len() implies st[i].0 != x.0 by {
            assert(st.contains(st[i]));
            vstd::seq_lib::to_multiset_contains(st, st[i]);
            vstd::seq_lib::to_multiset_contains(t, st[i]);
            let k = choose|k: int| 0 <= k < t.len() && t[k] == st[i];
            assert(s[k] == t[k]);
            assert(s[s.len() - 1] == x);
        }
        assert(r.len() == s.len());
        assert forall|i: int, j: int| 0 <= i < j < r.len() implies before(r[i], r[j]) by {
            if j < p {
                assert(r[i] == st[i] && r[j] == st[j]);
            } else if j == p {
                assert(r[j] == x);
                assert(r[i] == st[i]);
            } else if i < p {
                assert(r[i] == st[i]);
                assert(r[j] == st[j - 1]);
                if j - 1 >= p {
                    lemma_before_total(x, st[p]);
                    if j - 1 > p {
                        lemma_before_trans(x, st[p], st[j - 1]);
                    }
                    lemma_before_trans(st[i], x, st[j - 1]);
                }
            } else if i == p {
                assert(r[i] == x);
                assert(r[j] == st[j - 1]);
                lemma_before_total(x, st[p]);
                if j - 1 > p {
                    lemma_before_trans(x, st[p], st[j - 1]);
                }
            } else {
                assert(r[i] == st[i - 1] && r[j] == st[j - 1]);
            }
        }
        assert forall|i: int, j: int| 0 <= i < j < r.len() implies r[i].0 != r[j].0 by {
            lemma_before_irreflexive(r[i]);
            if r[i].0 == r[j].0 {
                if r[i] == x {
                    assert(r[j] == st[j - 1]);
                } else if r[j] == x {
                    assert(r[i] == st[i]);
                } else {
                    let a = if i < p { i } else { i - 1 };
                    let b = if j < p { j } else { j - 1 };
                    assert(r[i] == st[a]);
                    assert(r[j] == st[b]);
                }
            }
        }
        assert(st =~= st.take(p) + st.skip(p));
        vstd::seq_lib::lemma_multiset_commutative(st.take(p), st.skip(p));
        vstd::seq_lib::lemma_multiset_commutative(st.take(p) + seq![x], st.skip(p));
        vstd::seq_lib::lemma_multiset_commutative(st.take(p), seq![x]);
        vstd::seq_lib::lemma_multiset_commutative(t, seq![x]);
        assert(s =~= t + seq![x]);
    }
}


/// Whether some entry of `s` has the label `l`.
pub open spec fn has_label(s: Seq<Tally>, l: Seq<char>) -> bool {
    exists|i: int| 0 <= i < s.len() && s[i].0 == l
}

/// The index of the entry with label `l`.
pub open spec fn label_at(s: Seq<Tally>, l: Seq<char>) -> int {
    choose|i: int| 0 <= i < s.len() && s[i].0 == l
}

/// `s` with one more count for `l` (a new entry counted once when `l` has none).
pub open spec fn bump(s: Seq<Tally>, l: Seq<char>) -> Seq<Tally> {
    if has_label(s, l) {
        let i = label_at(s, l);
        s.update(i, (l, s[i].1 + 1))
    } else {
        s.push((l, 1))
    }
}

/// `s` with an entry for `l`, counted zero times when `l` had none.
pub open spec fn with_label(s: Seq<Tally>, l: Seq<char>) -> Seq<Tally> {
    if has_label(s, l) {
        s
    } else {
        s.push((l, 0))
    }
}

/// One zero-count entry per label of `seed`.
pub open spec fn seeded(seed: Seq<Seq<char>>) -> Seq<Tally>
    decreases seed.len(),
{
    if seed.len() == 0 {
        Seq::empty()
    } else {
        with_label(seeded(seed.drop_last()), seed.last())
    }
}

/// `s` with each label of `observed` counted once more.
pub open spec fn tallied(s: Seq<Tally>, observed: Seq<Seq<char>>) -> Seq<Tally>
    decreases observed.len(),
{
    if observed.len() == 0 {
        s
    } else {
        bump(tallied(s, observed.drop_last()), observed.last())
    }
}

/// How many times `l` occurs in `observed`.
pub open spec fn occurrences(observed: Seq<Seq<char>>, l: Seq<char>) -> int
    decreases observed.len(),
{
    if observed.len() == 0 {
        0
    } else {
        occurrences(observed.drop_last(), l) + if observed.last() == l { 1int } else { 0int }
    }
}

/// Each label of `seed` or of `observed`, with the number of times it occurs in `observed`.
pub open spec fn tally_map(seed: Set<Seq<char>>, observed: Seq<Seq<char>>) -> Map<Seq<char>, int> {
    Map::new(|l: Seq<char>| seed.contains(l) || observed.contains(l), |l: Seq<char>| occurrences(observed, l))
}

/// `s` lists the entries of `m`, each once.
pub open spec fn lists(s: Seq<Tally>, m: Map<Seq<char>, int>) -> bool {
    &&& distinct_labels(s)
    &&& forall|i: int| 0 <= i < s.len() ==> m.contains_key(#[trigger] s[i].0) && m[s[i].0] == s[i].1
    &&& forall|l: Seq<char>| #[trigger] m.contains_key(l) ==> has_label(s, l)
}

/// The entries of `m` in table order: highest count first, then by label.
pub open spec fn ranked(m: Map<Seq<char>, int>) -> Seq<Tally> {
    choose|s: Seq<Tally>| is_sorted(s) && lists(s, m)
}

proof fn lemma_before_asym(a: Tally, b: Tally)
    ensures
        !(before(a, b) && before(b, a)),
{
    lemma_text_lt_asym(a.0, b.0);
}

/// There is one table order only: two sorted lists of the same entries are the same list.
/// So the table does not depend on the order in which the counts were gathered.
pub proof fn lemma_ranking_unique(s: Seq<Tally>, t: Seq<Tally>, m: Map<Seq<char>, int>)
    requires
        is_sorted(s),
        is_sorted(t),
        lists(s, m),
        lists(t, m),
    ensures
        s == t,
    decreases s.len(),
{
    if s.len() == 0 {
        if t.len() > 0 {
            assert(m.contains_key(t[0].0));
        }
        assert(s =~= t);
    } else {
        let l0 = s[0].0;
        assert(m.contains_key(l0));
        let j = choose|j: int| 0 <= j < t.len() && t[j].0 == l0;
        assert(t[j] == s[0]);
        assert(m.contains_key(t[0].0));
        let k = choose|k: int| 0 <= k < s.len() && s[k].0 == t[0].0;
        assert(s[k] == t[0]);
        if j > 0 {
            assert(before(t[0], t[j]));
            if k > 0 {
                assert(before(s[0], s[k]));
                lemma_before_asym(s[0], t[0]);
            } else {
                assert(t[0].0 == t[j].0);
            }
        }
        assert(t[0] == s[0]);
        let m2 = m.remove(l0);
        let s2 = s.drop_first();
        let t2 = t.drop_first();
        assert(lists(s2, m2)) by {
            assert forall|i: int| 0 <= i < s2.len() implies m2.contains_key(#[trigger] s2[i].0) && m2[s2[i].0] == s2[i].1 by {
                assert(s2[i] == s[i + 1]);
                assert(s[0].0 != s[i + 1].0);
            }
            assert forall|l: Seq<char>| #[trigger] m2.contains_key(l) implies has_label(s2, l) by {
                assert(m.contains_key(l));
                let i = choose|i: int| 0 <= i < s.len() && s[i].0 == l;
                assert(i != 0);
                assert(s2[i - 1] == s[i]);
            }
        }
        assert(lists(t2, m2)) by {
            assert forall|i: int| 0 <= i < t2.len() implies m2.contains_key(#[trigger] t2[i].0) && m2[t2[i].0] == t2[i].1 by {
                assert(t2[i] == t[i + 1]);
                assert(t[0].0 != t[i + 1].0);
            }
            assert forall|l: Seq<char>| #[trigger] m2.contains_key(l) implies has_label(t2, l) by {
                assert(m.contains_key(l));
                let i = choose|i: int| 0 <= i < t.len() && t[i].0 == l;
                assert(i != 0);
                assert(t2[i - 1] == t[i]);
            }
        }
        assert(is_sorted(s2)) by {
            assert forall|a: int, b: int| 0 <= a < b < s2.len() implies before(s2[a], s2[b]) by {
                assert(s2[a] == s[a + 1] && s2[b] == s[b + 1]);
            }
        }
        assert(is_sorted(t2)) by {
            assert forall|a: int, b: int| 0 <= a < b < t2.len() implies before(t2[a], t2[b]) by {
                assert(t2[a] == t[a + 1] && t2[b] == t[b + 1]);
            }
        }
        lemma_ranking_unique(s2, t2, m2);
        assert(s =~= seq![s[0]] + s2);
        assert(t =~= seq![t[0]] + t2);
    }
}

/// A sorted list of the entries of `m` is `ranked(m)`.
pub proof fn lemma_ranked(s: Seq<Tally>, m: Map<Seq<char>, int>)
    requires
        is_sorted(s),
        lists(s, m),
    ensures
        ranked(m) == s,
{
    let r = ranked(m);
    assert(is_sorted(r) && lists(r, m));
    lemma_ranking_unique(s, r, m);
}

/// Sorting keeps the entries listed.
pub proof fn lemma_sort_lists(s: Seq<Tally>, m: Map<Seq<char>, int>)
    requires
        lists(s, m),
    ensures
        lists(sort_tallies(s), m),
        is_sorted(sort_tallies(s)),
{
    lemma_sort_tallies(s);
    let t = sort_tallies(s);
    assert forall|i: int| 0 <= i < t.len() implies m.contains_key(#[trigger] t[i].0) && m[t[i].0] == t[i].1 by {
        assert(t.contains(t[i]));
        vstd::seq_lib::to_multiset_contains(t, t[i]);
        vstd::seq_lib::to_multiset_contains(s, t[i]);
        let k = choose|k: int| 0 <= k < s.len() && s[k] == t[i];
        assert(m.contains_key(s[k].0));
    }
    assert forall|l: Seq<char>| #[trigger] m.contains_key(l) implies has_label(t, l) by {
        let k = choose|k: int| 0 <= k < s.len() && s[k].0 == l;
        assert(s.contains(s[k]));
        vstd::seq_lib::to_multiset_contains(s, s[k]);
        vstd::seq_lib::to_multiset_contains(t, s[k]);
        let i = choose|i: int| 0 <= i < t.len() && t[i] == s[k];
        assert(t[i].0 == l);
    }
}

proof fn lemma_bump(s: Seq<Tally>, m: Map<Seq<char>, int>, l: Seq<char>)
    requires
        lists(s, m),
    ensures
        lists(bump(s, l), m.insert(l, if m.contains_key(l) { m[l] } else { 0 } + 1)),
{
    let m2 = m.insert(l, if m.contains_key(l) { m[l] } else { 0 } + 1);
    let b = bump(s, l);
    if has_label(s, l) {
        let i = label_at(s, l);
        assert forall|a: int, c: int| 0 <= a < c < b.len() implies b[a].0 != b[c].0 by {
            assert(b[a].0 == s[a].0 && b[c].0 == s[c].0);
        }
        assert forall|k: int| 0 <= k < b.len() implies m2.contains_key(#[trigger] b[k].0) && m2[b[k].0] == b[k].1 by {
            if k != i {
                assert(s[k].0 != s[i].0);
            }
        }
        assert forall|x: Seq<char>| #[trigger] m2.contains_key(x) implies has_label(b, x) by {
            if x != l {
                let k = choose|k: int| 0 <= k < s.len() && s[k].0 == x;
                assert(b[k].0 == x);
            } else {
                assert(b[i].0 == x);
            }
        }
    } else {
        assert(!m.contains_key(l));
        assert forall|a: int, c: int| 0 <= a < c < b.len() implies b[a].0 != b[c].0 by {
            if c == s.len() {
                assert(b[a] == s[a]);
            } else {
                assert(b[a] == s[a] && b[c] == s[c]);
            }
        }
        assert forall|k: int| 0 <= k < b.len() implies m2.contains_key(#[trigger] b[k].0) && m2[b[k].0] == b[k].1 by {
            if k < s.len() {
                assert(b[k] == s[k]);
            }
        }
        assert forall|x: Seq<char>| #[trigger] m2.contains_key(x) implies has_label(b, x) by {
            if x != l {
                let k = choose|k: int| 0 <= k < s.len() && s[k].0 == x;
                assert(b[k].0 == x);
            } else {
                assert(b[s.len() as int].0 == x);
            }
        }
    }
}

proof fn lemma_with_label(s: Seq<Tally>, m: Map<Seq<char>, int>, l: Seq<char>)
    requires
        lists(s, m),
    ensures
        lists(with_label(s, l), if m.contains_key(l) { m } else { m.insert(l, 0) }),
{
    let m2 = if m.contains_key(l) { m } else { m.insert(l, 0) };
    let b = with_label(s, l);
    if has_label(s, l) {
        let i = label_at(s, l);
        assert(m.contains_key(l));
    } else {
        assert(!m.contains_key(l));
        assert forall|a: int, c: int| 0 <= a < c < b.len() implies b[a].0 != b[c].0 by {
            assert(b[a] == s[a]);
            if c < s.len() {
                assert(b[c] == s[c]);
            }
        }
        assert forall|k: int| 0 <= k < b.len() implies m2.contains_key(#[trigger] b[k].0) && m2[b[k].0] == b[k].1 by {
            if k < s.len() {
                assert(b[k] == s[k]);
            }
        }
        assert forall|x: Seq<char>| #[trigger] m2.contains_key(x) implies has_label(b, x) by {
            if x != l {
                let k = choose|k: int| 0 <= k < s.len() && s[k].0 == x;
                assert(b[k].0 == x);
            } else {
                assert(b[s.len() as int].0 == x);
            }
        }
    }
}

/// The zero-count entries of `seed` list each of its labels once.
proof fn lemma_seeded(seed: Seq<Seq<char>>)
    ensures
        lists(seeded(seed), tally_map(seed.to_set(), Seq::empty())),
    decreases seed.len(),
{
    let m = tally_map(seed.to_set(), Seq::empty());
    if seed.len() == 0 {
        assert(m =~= Map::empty());
    } else {
        let p = seed.drop_last();
        lemma_seeded(p);
        let mp = tally_map(p.to_set(), Seq::empty());
        lemma_with_label(seeded(p), mp, seed.last());
        assert(seed =~= p.push(seed.last()));
        let m2 = if mp.contains_key(seed.last()) { mp } else { mp.insert(seed.last(), 0) };
        assert forall|l: Seq<char>| m.contains_key(l) <==> m2.contains_key(l) by {
            if seed.to_set().contains(l) {
                let i = choose|i: int| 0 <= i < seed.len() && seed[i] == l;
                if i < p.len() {
                    assert(p[i] == l);
                    assert(p.to_set().contains(l));
                }
            }
            if p.to_set().contains(l) {
                let i = choose|i: int| 0 <= i < p.len() && p[i] == l;
                assert(seed[i] == l);
            }
            if l == seed.last() {
                assert(seed[seed.len() - 1] == l);
            }
        }
        assert(m =~= m2);
    }
}

proof fn lemma_occurrences_absent(observed: Seq<Seq<char>>, l: Seq<char>)
    requires
        !observed.contains(l),
    ensures
        occurrences(observed, l) == 0,
    decreases observed.len(),
{
    if observed.len() > 0 {
        let p = observed.drop_last();
        assert(!p.contains(l)) by {
            if p.contains(l) {
                let i = choose|i: int| 0 <= i < p.len() && p[i] == l;
                assert(observed[i] == l);
            }
        }
        lemma_occurrences_absent(p, l);
    }
}

/// Occurrences are at most the number of labels observed.
pub proof fn lemma_occurrences_bound(observed: Seq<Seq<char>>, l: Seq<char>)
    ensures
        0 <= occurrences(observed, l) <= observed.len(),
    decreases observed.len(),
{
    if observed.len() > 0 {
        lemma_occurrences_bound(observed.drop_last(), l);
    }
}

/// Counting the observed labels, from the seeded entries, lists the tally of each label.
pub proof fn lemma_tallied(seed: Seq<Seq<char>>, observed: Seq<Seq<char>>)
    ensures
        lists(tallied(seeded(seed), observed), tally_map(seed.to_set(), observed)),
    decreases observed.len(),
{
    if observed.len() == 0 {
        lemma_seeded(seed);
        assert(observed =~= Seq::<Seq<char>>::empty());
    } else {
        let p = observed.drop_last();
        let l = observed.last();
        lemma_tallied(seed, p);
        lemma_bump(tallied(seeded(seed), p), tally_map(seed.to_set(), p), l);
        lemma_tally_map_push(seed.to_set(), p, l);
        assert(observed =~= p.push(l));
    }
}

/// One more observed label counts once more.
proof fn lemma_tally_map_push(seed: Set<Seq<char>>, p: Seq<Seq<char>>, l: Seq<char>)
    ensures
        tally_map(seed, p.push(l)) == ({
            let mp = tally_map(seed, p);
            mp.insert(l, if mp.contains_key(l) { mp[l] } else { 0 } + 1)
        }),
{
    {
        let observed = p.push(l);
        assert(observed.drop_last() =~= p);
        let mp = tally_map(seed, p);
        let m = tally_map(seed, observed);
        let m2 = mp.insert(l, if mp.contains_key(l) { mp[l] } else { 0 } + 1);
        assert forall|x: Seq<char>| m.contains_key(x) <==> m2.contains_key(x) by {
            if observed.contains(x) && x != l {
                let i = choose|i: int| 0 <= i < observed.len() && observed[i] == x;
                assert(p[i] == x);
            }
            if p.contains(x) {
                let i = choose|i: int| 0 <= i < p.len() && p[i] == x;
                assert(observed[i] == x);
            }
            if x == l {
                assert(observed[observed.len() - 1] == x);
            }
        }
        assert forall|x: Seq<char>| #[trigger] m.contains_key(x) implies m[x] == m2[x] by {
            if x == l && !mp.contains_key(l) {
                lemma_occurrences_absent(p, l);
            }
        }
        assert(m =~= m2);
    }
}


/// Label counts as values: each label's text with its count.
pub open spec fn tallies_view(v: Seq<(Vec<char>, usize)>) -> Seq<Tally> {
    Seq::new(v.len(), |i: int| (v[i].0@, v[i].1 as int))
}

/// The labels of the entries.
pub open spec fn labels_of(s: Seq<Tally>) -> Seq<Seq<char>> {
    Seq::new(s.len(), |i: int| s[i].0)
}

/// The index of the entry labelled `l`, if any.
fn find_label(counts: &Vec<(Vec<char>, usize)>, l: &[char]) -> (r: Option<usize>)
    requires
        distinct_labels(tallies_view(counts@)),
    ensures
        match r {
            Some(i) => i < counts.len() && has_label(tallies_view(counts@), l@) && label_at(tallies_view(counts@), l@) == i,
            None => !has_label(tallies_view(counts@), l@),
        },
{
    let ghost v = tallies_view(counts@);
    let mut i: usize = 0;
    while i < counts.len()
        invariant
            i <= counts.len(),
            v == tallies_view(counts@),
            distinct_labels(v),
            forall|k: int| 0 <= k < i ==> v[k].0 != l@,
        decreases counts.len() - i,
    {
        if crate::text::chars_eq(counts[i].0.as_slice(), l) {
            proof {
                assert(v[i as int].0 == l@);
                let j = label_at(v, l@);
                assert(v[j].0 == l@);
            }
            return Some(i);
        }
        i = i + 1;
    }
    None
}

/// Counts `l` once more.
pub fn count_label(counts: &mut Vec<(Vec<char>, usize)>, l: &[char])
    requires
        distinct_labels(tallies_view(old(counts)@)),
        forall|i: int| 0 <= i < old(counts).len() ==> old(counts)@[i].1 < usize::MAX,
    ensures
        tallies_view(final(counts)@) == bump(tallies_view(old(counts)@), l@),
{
    let ghost v = tallies_view(counts@);
    match find_label(counts, l) {
        Some(i) => {
            let c = counts[i].1;
            counts.set(i, (slice_chars(l, 0, l.len()), c + 1));
            assert(l@.subrange(0, l@.len() as int) =~= l@);
            assert(tallies_view(counts@) =~= bump(v, l@));
        },
        None => {
            counts.push((slice_chars(l, 0, l.len()), 1));
            assert(l@.subrange(0, l@.len() as int) =~= l@);
            assert(tallies_view(counts@) =~= bump(v, l@));
        },
    }
}

/// Adds a zero-count entry for `l` when it has none.
pub fn add_label(counts: &mut Vec<(Vec<char>, usize)>, l: &[char])
    requires
        distinct_labels(tallies_view(old(counts)@)),
    ensures
        tallies_view(final(counts)@) == with_label(tallies_view(old(counts)@), l@),
{
    let ghost v = tallies_view(counts@);
    match find_label(counts, l) {
        Some(_) => {},
        None => {
            counts.push((slice_chars(l, 0, l.len()), 0));
            assert(l@.subrange(0, l@.len() as int) =~= l@);
            assert(tallies_view(counts@) =~= with_label(v, l@));
        },
    }
}

/// One zero-count entry per label of a label table, in the order the table is walked.
pub fn seed_from_table(table: &HashMap<i64, &'static str>) -> (counts: Vec<(Vec<char>, usize)>)
    ensures
        lists(tallies_view(counts@), tally_map(table_view(*table).values(), Seq::empty())),
{
    let mut counts: Vec<(Vec<char>, usize)> = Vec::new();
    let ghost mut seen: Seq<Seq<char>> = Seq::empty();
    let ghost m = table_view(*table);
    assert(tallies_view(counts@) =~= seeded(seen));
    for v in it: table.values()
        invariant
            m == table_view(*table),
            it.seq() == vstd::std_specs::hash::spec_values_iter(table).remaining(),
            tallies_view(counts@) == seeded(seen),
            seen.len() == it.index(),
            forall|k: int| 0 <= k < seen.len() ==> seen[k] == (*it.seq()[k])@,
    {
        proof {
            lemma_seeded(seen);
        }
        let c = chars_of(*v);
        add_label(&mut counts, c.as_slice());
        proof {
            let old_seen = seen;
            seen = seen.push(c@);
            assert(seen.drop_last() =~= old_seen);
        }
    }
    proof {
        let vals = vstd::std_specs::hash::spec_values_iter(table).remaining();
        assert(seen.len() == vals.len());
        assert(vals.unref().to_set() == table@.values());
        lemma_seeded(seen);
        assert forall|l: Seq<char>| seen.to_set().contains(l) <==> m.values().contains(l) by {
            if seen.to_set().contains(l) {
                let k = choose|k: int| 0 <= k < seen.len() && seen[k] == l;
                let s = *vals[k];
                assert(vals.unref()[k] == s);
                assert(vals.unref().to_set().contains(s));
                assert(table@.values().contains(s));
                let key = choose|key: i64| table@.contains_key(key) && table@[key] == s;
                assert(m.contains_key(key as int) && m[key as int] == l);
            }
            if m.values().contains(l) {
                let key = choose|key: int| m.contains_key(key) && m[key] == l;
                let s = table@[key as i64];
                assert(table@.values().contains(s));
                assert(vals.unref().to_set().contains(s));
                let k = choose|k: int| 0 <= k < vals.unref().len() && vals.unref()[k] == s;
                assert(seen[k] == l);
            }
        }
        assert(seen.to_set() =~= m.values());
    }
    counts
}

/// Entries that list the labels of `seed`, each counted zero times, are those labels.
pub proof fn lemma_seed_labels(s: Seq<Tally>, seed: Set<Seq<char>>)
    requires
        lists(s, tally_map(seed, Seq::empty())),
    ensures
        labels_of(s).to_set() == seed,
        forall|i: int| 0 <= i < s.len() ==> s[i].1 == 0,
{
    let m = tally_map(seed, Seq::empty());
    assert forall|l: Seq<char>| labels_of(s).to_set().contains(l) <==> seed.contains(l) by {
        if labels_of(s).to_set().contains(l) {
            let k = choose|k: int| 0 <= k < labels_of(s).len() && labels_of(s)[k] == l;
            assert(m.contains_key(s[k].0));
        }
        if seed.contains(l) {
            assert(m.contains_key(l));
            let k = choose|k: int| 0 <= k < s.len() && s[k].0 == l;
            assert(labels_of(s)[k] == l);
        }
    }
    assert(labels_of(s).to_set() =~= seed);
    assert forall|i: int| 0 <= i < s.len() implies s[i].1 == 0 by {
        assert(m.contains_key(s[i].0));
    }
}

/// Counts each label of `observed`, from zero-count entries for the labels of `seed`.
pub fn tally_labels(seed: Vec<(Vec<char>, usize)>, observed: &Vec<Vec<char>>) -> (counts: Vec<(Vec<char>, usize)>)
    requires
        distinct_labels(tallies_view(seed@)),
        forall|i: int| 0 <= i < seed.len() ==> tallies_view(seed@)[i].1 == 0,
    ensures
        lists(tallies_view(counts@), tally_map(labels_of(tallies_view(seed@)).to_set(), observed@.map_values(|c: Vec<char>| c@))),
{
    let ghost s = labels_of(tallies_view(seed@));
    let ghost obs = observed@.map_values(|c: Vec<char>| c@);
    let mut counts = seed;
    proof {
        let m = tally_map(s.to_set(), Seq::empty());
        let v = tallies_view(counts@);
        assert forall|l: Seq<char>| #[trigger] m.contains_key(l) implies has_label(v, l) by {
            let k = choose|k: int| 0 <= k < s.len() && s[k] == l;
            assert(v[k].0 == l);
        }
        assert forall|i: int| 0 <= i < v.len() implies m.contains_key(#[trigger] v[i].0) && m[v[i].0] == v[i].1 by {
            assert(s[i] == v[i].0);
        }
        assert(obs.take(0) =~= Seq::<Seq<char>>::empty());
    }
    let mut i: usize = 0;
    while i < observed.len()
        invariant
            i <= observed.len(),
            obs == observed@.map_values(|c: Vec<char>| c@),
            lists(tallies_view(counts@), tally_map(s.to_set(), obs.take(i as int))),
        decreases observed.len() - i,
    {
        let ghost v = tallies_view(counts@);
        let ghost m = tally_map(s.to_set(), obs.take(i as int));
        assert forall|k: int| 0 <= k < counts.len() implies counts@[k].1 < usize::MAX by {
            assert(m.contains_key(v[k].0));
            lemma_occurrences_bound(obs.take(i as int), v[k].0);
        }
        count_label(&mut counts, observed[i].as_slice());
        proof {
            lemma_bump(v, m, obs[i as int]);
            lemma_tally_map_push(s.to_set(), obs.take(i as int), obs[i as int]);
            assert(obs.take(i + 1) =~= obs.take(i as int).push(obs[i as int]));
        }
        i = i + 1;
    }
    assert(obs.take(observed.len() as int) =~= obs);
    counts
}

/// Whether `a` is listed before `b`.
fn before_exec(a: &(Vec<char>, usize), b: &(Vec<char>, usize)) -> (r: bool)
    ensures
        r == before((a.0@, a.1 as int), (b.0@, b.1 as int)),
{
    a.1 > b.1 || (a.1 == b.1 && text_lt_exec(a.0.as_slice(), b.0.as_slice()))
}

/// The entries sorted by count, highest first, then by label.
pub fn sort_counts(counts: Vec<(Vec<char>, usize)>) -> (r: Vec<(Vec<char>, usize)>)
    ensures
        tallies_view(r@) == sort_tallies(tallies_view(counts@)),
{
    let ghost v = tallies_view(counts@);
    let mut out: Vec<(Vec<char>, usize)> = Vec::new();
    assert(v.take(0) =~= Seq::<Tally>::empty());
    let mut i: usize = 0;
    while i < counts.len()
        invariant
            i <= counts.len(),
            v == tallies_view(counts@),
            tallies_view(out@) == sort_tallies(v.take(i as int)),
        decreases counts.len() - i,
    {
        let label = slice_chars(counts[i].0.as_slice(), 0, counts[i].0.len());
        let x = (label, counts[i].1);
        let ghost xv = (x.0@, x.1 as int);
        assert(xv == v[i as int]) by {
            assert(counts[i as int].0@.subrange(0, counts[i as int].0@.len() as int) =~= counts[i as int].0@);
        }
        let ghost ov = tallies_view(out@);
        let mut p: usize = 0;
        while p < out.len() && before_exec(&out[p], &x)
            invariant
                p <= out.len(),
                ov == tallies_view(out@),
                xv == (x.0@, x.1 as int),
                insert_pos(ov, xv, 0) == insert_pos(ov, xv, p as int),
            decreases out.len() - p,
        {
            p = p + 1;
        }
        assert(insert_pos(ov, xv, p as int) == p);
        out.insert(p, x);
        assert(tallies_view(out@) =~= insert_sorted(ov, xv));
        assert(v.take(i + 1).drop_last() =~= v.take(i as int));
        assert(v.take(i + 1).last() == xv);
        i = i + 1;
    }
    assert(v.take(counts.len() as int) =~= v);
    out
}

/// The Markdown rows of a count table: each label escaped, with its count.
pub open spec fn count_rows(rows: Seq<Tally>) -> Seq<Seq<Seq<char>>> {
    Seq::new(rows.len(), |i: int| seq![escape_cell_spec(rows[i].0), int_text(rows[i].1)])
}

/// A count table: the total in bold, then a Label/Count table of the entries.
pub open spec fn counts_text(total_label: Seq<char>, total: int, rows: Seq<Tally>) -> Seq<char> {
    "**"@ + total_label + ": "@ + int_text(total) + "**\n\n"@ + table_spec(seq!["Label"@, "Count"@], count_rows(rows))
}

/// Renders the counts as a table sorted by count (highest first), then by label.
pub fn render_counts(total_label: &str, total: usize, counts: Vec<(Vec<char>, usize)>) -> (r: String)
    ensures
        r@ == counts_text(total_label@, total as int, sort_tallies(tallies_view(counts@))),
{
    let sorted = sort_counts(counts);
    let ghost sv = tallies_view(sorted@);
    let mut rows: Vec<Vec<String>> = Vec::new();
    let mut i: usize = 0;
    while i < sorted.len()
        invariant
            i <= sorted.len(),
            sv == tallies_view(sorted@),
            rows_view(rows@) == count_rows(sv.take(i as int)),
        decreases sorted.len() - i,
    {
        let label = string_of(escape_cell_chars(sorted[i].0.as_slice()).as_slice());
        let count = int_string(sorted[i].1 as i128);
        let row = vec![label, count];
        assert(strings_view(row@) =~= seq![escape_cell_spec(sv[i as int].0), int_text(sv[i as int].1)]);
        let ghost old_rows = rows@;
        rows.push(row);
        assert(rows_view(rows@) =~= rows_view(old_rows).push(strings_view(row@)));
        assert(count_rows(sv.take(i + 1)) =~= count_rows(sv.take(i as int)).push(strings_view(row@)));
        i = i + 1;
    }
    assert(sv.take(sorted.len() as int) =~= sv);
    let headers = ["Label", "Count"];
    assert(strs_view(headers@) =~= seq!["Label"@, "Count"@]);
    let t = table(&headers, rows.as_slice());
    let mut out: Vec<char> = Vec::new();
    extend_str(&mut out, "**");
    extend_str(&mut out, total_label);
    extend_str(&mut out, ": ");
    push_int(&mut out, total as i128);
    extend_str(&mut out, "**\n\n");
    extend_str(&mut out, t.as_str());
    string_of(out.as_slice())
}


/// The sum of the counts.
pub open spec fn total(s: Seq<Tally>) -> int
    decreases s.len(),
{
    if s.len() == 0 {
        0
    } else {
        total(s.drop_last()) + s.last().1
    }
}

proof fn lemma_total_push(s: Seq<Tally>, x: Tally)
    ensures
        total(s.push(x)) == total(s) + x.1,
{
    assert(s.push(x).drop_last() =~= s);
}

proof fn lemma_total_one(x: Tally)
    ensures
        total(seq![x]) == x.1,
{
    lemma_total_push(Seq::empty(), x);
    assert(Seq::<Tally>::empty().push(x) =~= seq![x]);
}

proof fn lemma_total_concat(a: Seq<Tally>, b: Seq<Tally>)
    ensures
        total(a + b) == total(a) + total(b),
    decreases b.len(),
{
    if b.len() == 0 {
        assert(a + b =~= a);
    } else {
        lemma_total_concat(a, b.drop_last());
        assert((a + b).drop_last() =~= a + b.drop_last());
    }
}

proof fn lemma_total_update(s: Seq<Tally>, i: int, x: Tally)
    requires
        0 <= i < s.len(),
    ensures
        total(s.update(i, x)) == total(s) - s[i].1 + x.1,
{
    assert(s =~= s.take(i) + seq![s[i]] + s.skip(i + 1));
    assert(s.update(i, x) =~= s.take(i) + seq![x] + s.skip(i + 1));
    lemma_total_one(x);
    lemma_total_one(s[i]);
    lemma_total_concat(s.take(i) + seq![s[i]], s.skip(i + 1));
    lemma_total_concat(s.take(i), seq![s[i]]);
    lemma_total_concat(s.take(i) + seq![x], s.skip(i + 1));
    lemma_total_concat(s.take(i), seq![x]);
    assert(seq![x].drop_last() =~= Seq::<Tally>::empty());
    assert(seq![s[i]].drop_last() =~= Seq::<Tally>::empty());
}

proof fn lemma_total_sort(s: Seq<Tally>)
    ensures
        total(sort_tallies(s)) == total(s),
    decreases s.len(),
{
    if s.len() > 0 {
        let t = s.drop_last();
        lemma_total_sort(t);
        let st = sort_tallies(t);
        let p = insert_pos(st, s.last(), 0);
        lemma_insert_pos(st, s.last(), 0);
        assert(st =~= st.take(p) + st.skip(p));
        lemma_total_concat(st.take(p), st.skip(p));
        lemma_total_concat(st.take(p) + seq![s.last()], st.skip(p));
        lemma_total_concat(st.take(p), seq![s.last()]);
        lemma_total_one(s.last());
    }
}

proof fn lemma_total_tallied(seed: Seq<Seq<char>>, observed: Seq<Seq<char>>)
    ensures
        total(tallied(seeded(seed), observed)) == observed.len(),
    decreases observed.len(),
{
    if observed.len() == 0 {
        lemma_total_seeded(seed);
    } else {
        lemma_total_tallied(seed, observed.drop_last());
        let t = tallied(seeded(seed), observed.drop_last());
        let l = observed.last();
        if has_label(t, l) {
            lemma_total_update(t, label_at(t, l), (l, t[label_at(t, l)].1 + 1));
        } else {
            lemma_total_push(t, (l, 1));
        }
    }
}

proof fn lemma_total_seeded(seed: Seq<Seq<char>>)
    ensures
        total(seeded(seed)) == 0,
    decreases seed.len(),
{
    if seed.len() > 0 {
        lemma_total_seeded(seed.drop_last());
        lemma_total_push(seeded(seed.drop_last()), (seed.last(), 0));
    }
}

/// The counts of a table add up to the number of labels counted: every observed label is
/// counted exactly once, and the seeded labels add nothing.
pub proof fn lemma_counts_add_up(seed: Seq<Seq<char>>, observed: Seq<Seq<char>>)
    ensures
        total(ranked(tally_map(seed.to_set(), observed))) == observed.len(),
{
    let t = tallied(seeded(seed), observed);
    let m = tally_map(seed.to_set(), observed);
    lemma_tallied(seed, observed);
    lemma_sort_lists(t, m);
    lemma_ranked(sort_tallies(t), m);
    lemma_total_sort(t);
    lemma_total_tallied(seed, observed);
}

} // verus!
