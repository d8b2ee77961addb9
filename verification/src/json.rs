//! A JSON document model for the values GLPI sends and receives.
use vstd::prelude::*;

verus! {

/// A JSON value. Numbers that are integers are held exactly; any other number is held
/// as the text that JSON gives it. Object members keep their order.
#[derive(Debug, PartialEq)]
pub enum Json {
    Null,
    Bool(bool),
    Int(i128),
    Float(String),
    Str(String),
    Array(Vec<Json>),
    Object(Vec<(String, Json)>),
}

/// The mathematical form of a JSON value.
pub enum JsonV {
    Null,
    Bool(bool),
    Int(int),
    Float(Seq<char>),
    Str(Seq<char>),
    Array(Seq<JsonV>),
    Object(Seq<(Seq<char>, JsonV)>),
}

pub open spec fn view_items(s: Seq<Json>) -> Seq<JsonV>
    decreases s,
{
    Seq::new(s.len(), |i: int| if 0 <= i < s.len() { view_json(s[i]) } else { JsonV::Null })
}

pub open spec fn view_members(s: Seq<(String, Json)>) -> Seq<(Seq<char>, JsonV)>
    decreases s,
{
    Seq::new(s.len(), |i: int| if 0 <= i < s.len() { (s[i].0@, view_json(s[i].1)) } else { (Seq::empty(), JsonV::Null) })
}

pub open spec fn view_json(j: Json) -> JsonV
    decreases j,
{
    match j {
        Json::Null => JsonV::Null,
        Json::Bool(b) => JsonV::Bool(b),
        Json::Int(n) => JsonV::Int(n as int),
        Json::Float(t) => JsonV::Float(t@),
        Json::Str(s) => JsonV::Str(s@),
        Json::Array(v) => JsonV::Array(view_items(v@)),
        Json::Object(m) => JsonV::Object(view_members(m@)),
    }
}

pub proof fn lemma_view_items_push(s: Seq<Json>, x: Json)
    ensures
        view_items(s.push(x)) == view_items(s).push(view_json(x)),
{
    assert(view_items(s.push(x)) =~= view_items(s).push(view_json(x)));
}

pub proof fn lemma_view_members_push(s: Seq<(String, Json)>, x: (String, Json))
    ensures
        view_members(s.push(x)) == view_members(s).push((x.0@, view_json(x.1))),
{
    assert(view_members(s.push(x)) =~= view_members(s).push((x.0@, view_json(x.1))));
}

pub proof fn lemma_view_items_take(s: Seq<Json>, i: int)
    requires
        0 <= i < s.len(),
    ensures
        view_items(s.take(i + 1)) == view_items(s.take(i)).push(view_json(s[i])),
{
    assert(s.take(i + 1) =~= s.take(i).push(s[i]));
    lemma_view_items_push(s.take(i), s[i]);
}

pub proof fn lemma_view_members_take(s: Seq<(String, Json)>, i: int)
    requires
        0 <= i < s.len(),
    ensures
        view_members(s.take(i + 1)) == view_members(s.take(i)).push((s[i].0@, view_json(s[i].1))),
{
    assert(s.take(i + 1) =~= s.take(i).push(s[i]));
    lemma_view_members_push(s.take(i), s[i]);
}

impl View for Json {
    type V = JsonV;

    open spec fn view(&self) -> JsonV {
        view_json(*self)
    }
}

/// The value of the first member named `key`.
pub open spec fn member(m: Seq<(Seq<char>, JsonV)>, key: Seq<char>) -> Option<JsonV>
    decreases m.len(),
{
    if m.len() == 0 {
        None
    } else if m[0].0 == key {
        Some(m[0].1)
    } else {
        member(m.drop_first(), key)
    }
}

/// The index of the first member named `key`.
pub open spec fn member_index(m: Seq<(Seq<char>, JsonV)>, key: Seq<char>) -> Option<int>
    decreases m.len(),
{
    if m.len() == 0 {
        None
    } else if m[0].0 == key {
        Some(0)
    } else {
        match member_index(m.drop_first(), key) {
            Some(i) => Some(i + 1),
            None => None,
        }
    }
}

/// `v[key]` when `v` is an object holding `key`, as `serde_json::Value::get` reads it.
pub open spec fn jget(v: JsonV, key: Seq<char>) -> Option<JsonV> {
    match v {
        JsonV::Object(m) => member(m, key),
        _ => None,
    }
}

/// The text of a string value.
pub open spec fn jstr(v: JsonV) -> Option<Seq<char>> {
    match v {
        JsonV::Str(s) => Some(s),
        _ => None,
    }
}

/// The value of an integer that fits in `i64`, as `as_i64` reads it.
pub open spec fn ji64(v: JsonV) -> Option<int> {
    match v {
        JsonV::Int(n) => if i64::MIN <= n <= i64::MAX {
            Some(n)
        } else {
            None
        },
        _ => None,
    }
}

/// The text of the string found at `key`.
pub open spec fn jget_str(v: JsonV, key: Seq<char>) -> Option<Seq<char>> {
    match jget(v, key) {
        Some(x) => jstr(x),
        None => None,
    }
}

/// The `i64` found at `key`.
pub open spec fn jget_i64(v: JsonV, key: Seq<char>) -> Option<int> {
    match jget(v, key) {
        Some(x) => ji64(x),
        None => None,
    }
}

/// `m` with `key` set to `val`: an existing member keeps its place, a new one goes last.
pub open spec fn member_insert(m: Seq<(Seq<char>, JsonV)>, key: Seq<char>, val: JsonV) -> Seq<(Seq<char>, JsonV)> {
    match member_index(m, key) {
        Some(i) => m.update(i, (key, val)),
        None => m.push((key, val)),
    }
}

proof fn lemma_member_index(m: Seq<(Seq<char>, JsonV)>, key: Seq<char>)
    ensures
        member_index(m, key) matches Some(i) ==> 0 <= i < m.len() && m[i].0 == key
            && member(m, key) == Some(m[i].1) && forall|j: int| 0 <= j < i ==> m[j].0 != key,
        member_index(m, key) is None ==> member(m, key) is None && forall|j: int|
            0 <= j < m.len() ==> m[j].0 != key,
    decreases m.len(),
{
    if m.len() > 0 {
        lemma_member_index(m.drop_first(), key);
        if m[0].0 != key {
            if let Some(i) = member_index(m.drop_first(), key) {
                assert forall|j: int| 0 <= j < i + 1 implies m[j].0 != key by {
                    if j > 0 {
                        assert(m[j] == m.drop_first()[j - 1]);
                    }
                }
            } else {
                assert forall|j: int| 0 <= j < m.len() implies m[j].0 != key by {
                    if j > 0 {
                        assert(m[j] == m.drop_first()[j - 1]);
                    }
                }
            }
        }
    }
}

/// An owned copy of a string slice.
pub fn owned(s: &str) -> (r: String)
    ensures
        r@ == s@,
{
    s.to_string()
}

/// A copy of a string.
pub fn copy_string(s: &String) -> (r: String)
    ensures
        r@ == s@,
{
    s.clone()
}

impl Json {
    /// A deep copy.
    #[verifier::loop_isolation(false)]
    pub fn deep_clone(&self) -> (r: Json)
        ensures
            r@ == self@,
        decreases self,
    {
        match self {
            Json::Null => Json::Null,
            Json::Bool(b) => Json::Bool(*b),
            Json::Int(n) => Json::Int(*n),
            Json::Float(t) => Json::Float(copy_string(t)),
            Json::Str(s) => Json::Str(copy_string(s)),
            Json::Array(items) => {
                let mut out: Vec<Json> = Vec::new();
                let mut i: usize = 0;
                while i < items.len()
                    invariant
                        i <= items.len(),
                        view_items(out@) == view_items(items@.take(i as int)),
                    decreases items.len() - i,
                {
                    proof {
                        assert(decreases_to!(items@ => items@[i as int]));
                    }
                    let c = items[i].deep_clone();
                    proof {
                        lemma_view_items_push(out@, c);
                        lemma_view_items_take(items@, i as int);
                    }
                    out.push(c);
                    i = i + 1;
                }
                assert(items@.take(items.len() as int) =~= items@);
                Json::Array(out)
            },
            Json::Object(members) => {
                let mut out: Vec<(String, Json)> = Vec::new();
                let mut i: usize = 0;
                while i < members.len()
                    invariant
                        i <= members.len(),
                        view_members(out@) == view_members(members@.take(i as int)),
                    decreases members.len() - i,
                {
                    let k = copy_string(&members[i].0);
                    proof {
                        assert(decreases_to!(members@ => members@[i as int]));
                        assert(decreases_to!(members@[i as int] => members@[i as int].1));
                    }
                    let v = members[i].1.deep_clone();
                    proof {
                        lemma_view_members_push(out@, (k, v));
                        lemma_view_members_take(members@, i as int);
                    }
                    out.push((k, v));
                    i = i + 1;
                }
                assert(members@.take(members.len() as int) =~= members@);
                Json::Object(out)
            },
        }
    }

    /// The value at `key` when `self` is an object that holds it.
    #[verifier::loop_isolation(false)]
    pub fn get(&self, key: &str) -> (r: Option<&Json>)
        ensures
            r matches Some(x) ==> jget(self@, key@) == Some(x@),
            r is None ==> jget(self@, key@) is None,
    {
        match self {
            Json::Object(members) => {
                let mut i: usize = 0;
                assert(view_members(members@).skip(0) =~= view_members(members@));
                while i < members.len()
                    invariant
                        i <= members.len(),
                        member(view_members(members@), key@) == member(
                            view_members(members@).skip(i as int),
                            key@,
                        ),
                    decreases members.len() - i,
                {
                    let ghost rest = view_members(members@).skip(i as int);
                    assert(rest.drop_first() =~= view_members(members@).skip(i + 1));
                    if crate::text::chars_eq_str(crate::text::chars_of(members[i].0.as_str()).as_slice(), key) {
                        return Some(&members[i].1);
                    }
                    i = i + 1;
                }
                None
            },
            _ => None,
        }
    }

    /// The text of a string value.
    pub fn as_str(&self) -> (r: Option<&String>)
        ensures
            r matches Some(s) ==> jstr(self@) == Some(s@),
            r is None ==> jstr(self@) is None,
    {
        match self {
            Json::Str(s) => Some(s),
            _ => None,
        }
    }

    /// The value of an integer that fits in `i64`.
    pub fn as_i64(&self) -> (r: Option<i64>)
        ensures
            r matches Some(n) ==> ji64(self@) == Some(n as int),
            r is None ==> ji64(self@) is None,
    {
        match self {
            Json::Int(n) => if i64::MIN as i128 <= *n && *n <= i64::MAX as i128 {
                Some(*n as i64)
            } else {
                None
            },
            _ => None,
        }
    }

    /// The text of the string at `key`, if there is one.
    pub fn get_str(&self, key: &str) -> (r: Option<&String>)
        ensures
            r matches Some(s) ==> jget_str(self@, key@) == Some(s@),
            r is None ==> jget_str(self@, key@) is None,
    {
        match self.get(key) {
            Some(v) => v.as_str(),
            None => None,
        }
    }

    /// The `i64` at `key`, if there is one.
    pub fn get_i64(&self, key: &str) -> (r: Option<i64>)
        ensures
            r matches Some(n) ==> jget_i64(self@, key@) == Some(n as int),
            r is None ==> jget_i64(self@, key@) is None,
    {
        match self.get(key) {
            Some(v) => v.as_i64(),
            None => None,
        }
    }

    /// Sets `key` to `value` when `self` is an object; other values stay as they are.
    #[verifier::loop_isolation(false)]
    pub fn insert(&mut self, key: String, value: Json)
        ensures
            (match old(self)@ {
                JsonV::Object(m) => final(self)@ == JsonV::Object(member_insert(m, key@, value@)),
                _ => final(self)@ == old(self)@,
            }),
    {
        match self {
            Json::Object(members) => {
                let ghost m = view_members(members@);
                proof {
                    lemma_member_index(m, key@);
                }
                let mut i: usize = 0;
                while i < members.len()
                    invariant
                        i <= members.len(),
                        m == view_members(members@),
                        forall|j: int| 0 <= j < i ==> m[j].0 != key@,
                        member_index(m, key@) matches Some(x) ==> x >= i,
                    decreases members.len() - i,
                {
                    proof {
                        lemma_member_index(m, key@);
                    }
                    if crate::text::chars_eq_str(crate::text::chars_of(members[i].0.as_str()).as_slice(), key.as_str()) {
                        assert(m[i as int].0 == key@);
                        assert(member_index(m, key@) == Some(i as int));
                        let ghost kv = key@;
                        let ghost vv = value@;
                        members.set(i, (key, value));
                        assert(view_members(members@) =~= m.update(i as int, (kv, vv)));
                        return;
                    }
                    i = i + 1;
                }
                let ghost kv = key@;
                let ghost vv = value@;
                members.push((key, value));
                assert(view_members(members@) =~= m.push((kv, vv)));
            },
            _ => {},
        }
    }
}

/// An object built from the given members.
pub open spec fn jobject(members: Seq<(Seq<char>, JsonV)>) -> JsonV {
    JsonV::Object(members)
}


/// After setting `key`, reading `key` gives the value set.
pub proof fn lemma_member_insert_reads_back(m: Seq<(Seq<char>, JsonV)>, key: Seq<char>, val: JsonV)
    ensures
        member(member_insert(m, key, val), key) == Some(val),
{
    lemma_member_index(m, key);
    let r = member_insert(m, key, val);
    match member_index(m, key) {
        Some(i) => {
            lemma_member_index(r, key);
            assert forall|j: int| 0 <= j < i implies r[j].0 != key by {
                assert(r[j] == m[j]);
            }
            assert(r[i] == (key, val));
            lemma_member_first(r, key, i);
        },
        None => {
            assert forall|j: int| 0 <= j < m.len() implies r[j].0 != key by {
                assert(r[j] == m[j]);
            }
            lemma_member_first(r, key, m.len() as int);
        },
    }
}

/// The first member named `key` gives `member`'s answer.
proof fn lemma_member_first(m: Seq<(Seq<char>, JsonV)>, key: Seq<char>, i: int)
    requires
        0 <= i < m.len(),
        m[i].0 == key,
        forall|j: int| 0 <= j < i ==> m[j].0 != key,
    ensures
        member(m, key) == Some(m[i].1),
    decreases i,
{
    if i > 0 {
        assert forall|j: int| 0 <= j < i - 1 implies m.drop_first()[j].0 != key by {
            assert(m.drop_first()[j] == m[j + 1]);
        }
        lemma_member_first(m.drop_first(), key, i - 1);
    }
}


proof fn lemma_member_none(m: Seq<(Seq<char>, JsonV)>, key: Seq<char>)
    requires
        forall|j: int| 0 <= j < m.len() ==> m[j].0 != key,
    ensures
        member(m, key) is None,
    decreases m.len(),
{
    if m.len() > 0 {
        assert forall|j: int| 0 <= j < m.drop_first().len() implies m.drop_first()[j].0 != key by {
            assert(m.drop_first()[j] == m[j + 1]);
        }
        lemma_member_none(m.drop_first(), key);
    }
}

/// Setting `key` leaves every other member as it was.
pub proof fn lemma_member_insert_keeps_others(m: Seq<(Seq<char>, JsonV)>, key: Seq<char>, val: JsonV, other: Seq<char>)
    requires
        other != key,
    ensures
        member(member_insert(m, key, val), other) == member(m, other),
{
    lemma_member_index(m, key);
    lemma_member_index(m, other);
    let r = member_insert(m, key, val);
    assert forall|j: int| 0 <= j < r.len() && r[j].0 == other implies j < m.len() && r[j] == m[j] by {
        if j < m.len() {
            if let Some(i) = member_index(m, key) {
                if j == i {
                    assert(r[j].0 == key);
                }
            }
        } else {
            assert(r[j].0 == key);
        }
    }
    match member_index(m, other) {
        Some(j) => {
            assert forall|k: int| 0 <= k < j implies r[k].0 != other by {
                if r[k].0 == other {
                    assert(r[k] == m[k]);
                }
            }
            assert(r[j] == m[j]) by {
                if let Some(i) = member_index(m, key) {
                    assert(m[i].0 == key);
                }
            }
            lemma_member_first(r, other, j);
        },
        None => {
            assert forall|k: int| 0 <= k < r.len() implies r[k].0 != other by {
                if r[k].0 == other {
                    assert(r[k] == m[k]);
                }
            }
            lemma_member_none(r, other);
        },
    }
}

} // verus!
