//! A JSON value model with a mathematical view.
use vstd::prelude::*;
use crate::common::text::{split_char, split_on, str_eq, strings_view, lemma_split_on_first, lemma_split_on_no_sep, lemma_split_on_nonempty};

verus! {

/// A JSON number as serde_json stores it: a non-negative integer, a negative
/// integer, or a finite float (held as its IEEE-754 bit pattern).
#[derive(Clone, Copy, Debug, PartialEq, Eq, Structural)]
pub enum JsonNumber {
    PosInt(u64),
    NegInt(i64),
    Float(u64),
}

/// The mathematical view of a JSON value.
#[verifier::ext_equal]
pub enum Json {
    Null,
    Bool(bool),
    Number(JsonNumber),
    Str(Seq<char>),
    Array(Seq<Json>),
    Object(Seq<(Seq<char>, Json)>),
}

/// An executable JSON value.
#[derive(Debug)]
pub enum JsonValue {
    Null,
    Bool(bool),
    Number(JsonNumber),
    String(String),
    Array(Vec<JsonValue>),
    Object(Vec<(String, JsonValue)>),
}

impl JsonValue {
    /// The mathematical value this JSON value stands for.
    pub open spec fn json(&self) -> Json
        decreases self, 0nat,
    {
        match self {
            JsonValue::Null => Json::Null,
            JsonValue::Bool(b) => Json::Bool(*b),
            JsonValue::Number(n) => Json::Number(*n),
            JsonValue::String(s) => Json::Str(s@),
            JsonValue::Array(items) => Json::Array(items_json(*items, items.len() as nat)),
            JsonValue::Object(entries) => Json::Object(entries_json(*entries, entries.len() as nat)),
        }
    }
}

/// The views of the first `n` items.
pub open spec fn items_json(items: Vec<JsonValue>, n: nat) -> Seq<Json>
    decreases items, n,
{
    if n == 0 || n > items.len() {
        Seq::empty()
    } else {
        proof {
            vstd::std_specs::vec::axiom_vec_index_decreases(items, n - 1);
        }
        items_json(items, (n - 1) as nat).push(items[n - 1].json())
    }
}

/// The views of the first `n` entries.
pub open spec fn entries_json(entries: Vec<(String, JsonValue)>, n: nat) -> Seq<(Seq<char>, Json)>
    decreases entries, n,
{
    if n == 0 || n > entries.len() {
        Seq::empty()
    } else {
        proof {
            vstd::std_specs::vec::axiom_vec_index_decreases(entries, n - 1);
        }
        entries_json(entries, (n - 1) as nat).push((entries[n - 1].0@, entries[n - 1].1.json()))
    }
}


/// The view of the first `n` items has length `n`, and its `i`-th element is
/// the view of the `i`-th item.
pub proof fn lemma_items_json(items: Vec<JsonValue>, n: nat)
    requires
        n <= items.len(),
    ensures
        items_json(items, n).len() == n,
        forall|i: int| 0 <= i < n ==> #[trigger] items_json(items, n)[i] == items[i].json(),
    decreases n,
{
    if n > 0 {
        lemma_items_json(items, (n - 1) as nat);
    }
}

/// The view of the first `n` entries has length `n`, and its `i`-th element
/// is the view of the `i`-th entry.
pub proof fn lemma_entries_json(entries: Vec<(String, JsonValue)>, n: nat)
    requires
        n <= entries.len(),
    ensures
        entries_json(entries, n).len() == n,
        forall|i: int|
            0 <= i < n ==> #[trigger] entries_json(entries, n)[i] == (
                entries[i].0@,
                entries[i].1.json(),
            ),
    decreases n,
{
    if n > 0 {
        lemma_entries_json(entries, (n - 1) as nat);
    }
}

/// The view of all entries of an object.
pub open spec fn object_view(entries: Vec<(String, JsonValue)>) -> Seq<(Seq<char>, Json)> {
    entries_json(entries, entries.len() as nat)
}

/// The value of the first entry whose key is `key` (serde_json maps hold each
/// key at most once, so this is the value stored under `key`).
pub open spec fn lookup(entries: Seq<(Seq<char>, Json)>, key: Seq<char>) -> Option<Json>
    decreases entries.len(),
{
    if entries.len() == 0 {
        None
    } else if entries[0].0 == key {
        Some(entries[0].1)
    } else {
        lookup(entries.drop_first(), key)
    }
}

/// `Value::get` with a string index: the value under `key` of an object,
/// `None` for any other value.
pub open spec fn json_get(j: Json, key: Seq<char>) -> Option<Json> {
    match j {
        Json::Object(entries) => lookup(entries, key),
        _ => None,
    }
}

/// Follows `parts` key by key from `j`.
pub open spec fn nested(j: Json, parts: Seq<Seq<char>>) -> Option<Json>
    decreases parts.len(),
{
    if parts.len() == 0 {
        Some(j)
    } else {
        match json_get(j, parts[0]) {
            Some(v) => nested(v, parts.drop_first()),
            None => None,
        }
    }
}

/// The value at a dot-separated `path` (as `get_nested_value` defines it).
pub open spec fn at_path(j: Json, path: Seq<char>) -> Option<Json> {
    nested(j, split_on(path, '.'))
}

/// A path without dots is a single key: following it reads that key.
pub proof fn lemma_path_single_key(j: Json, key: Seq<char>)
    requires
        !key.contains('.'),
    ensures
        at_path(j, key) == json_get(j, key),
{
    lemma_split_on_no_sep(key, '.');
    let parts = seq![key];
    assert(parts[0] == key);
    assert(parts.drop_first() =~= Seq::<Seq<char>>::empty());
    if let Some(v) = json_get(j, key) {
        assert(nested(v, parts.drop_first()) == Some(v));
    }
}

/// Following the dotted path `first.rest`, where `first` holds no dot, reads
/// `first` and then follows `rest` from what it finds.
pub proof fn lemma_path_first_key(j: Json, first: Seq<char>, rest: Seq<char>)
    requires
        !first.contains('.'),
    ensures
        at_path(j, first + seq!['.'] + rest) == match json_get(j, first) {
            Some(v) => at_path(v, rest),
            None => None,
        },
{
    lemma_split_on_first(first, rest, '.');
    let parts = seq![first] + split_on(rest, '.');
    assert(parts[0] == first);
    assert(parts.drop_first() =~= split_on(rest, '.'));
}

/// The view of an optional reference to a JSON value.
pub open spec fn opt_json(r: Option<&JsonValue>) -> Option<Json> {
    match r {
        Some(v) => Some(v.json()),
        None => None,
    }
}

proof fn lemma_lookup_skip(entries: Seq<(Seq<char>, Json)>, key: Seq<char>, i: int)
    requires
        0 <= i <= entries.len(),
        forall|j: int| 0 <= j < i ==> entries[j].0 != key,
    ensures
        lookup(entries, key) == lookup(entries.skip(i), key),
    decreases i,
{
    if i > 0 {
        assert(entries.skip(1) =~= entries.drop_first());
        lemma_lookup_skip(entries.drop_first(), key, i - 1);
        assert(entries.drop_first().skip(i - 1) =~= entries.skip(i));
    } else {
        assert(entries.skip(0) =~= entries);
    }
}

impl JsonValue {
    /// Whether this value is a JSON object.
    pub fn is_object(&self) -> (r: bool)
        ensures
            r == self.json() is Object,
    {
        match self {
            JsonValue::Object(_) => true,
            _ => false,
        }
    }

    /// The value stored under `key` when this is an object (as `Value::get`).
    pub fn get(&self, key: &str) -> (r: Option<&JsonValue>)
        ensures
            opt_json(r) == json_get(self.json(), key@),
    {
        match self {
            JsonValue::Object(entries) => {
                let ghost view = object_view(*entries);
                proof {
                    lemma_entries_json(*entries, entries.len() as nat);
                    assert(self.json() == Json::Object(view));
                }
                let mut i: usize = 0;
                while i < entries.len()
                    invariant
                        view == object_view(*entries),
                        self.json() == Json::Object(view),
                        view.len() == entries.len(),
                        forall|k: int| 0 <= k < entries.len() ==> #[trigger] view[k] == (entries[k].0@, entries[k].1.json()),
                        i <= entries.len(),
                        forall|j: int| 0 <= j < i ==> view[j].0 != key@,
                    decreases entries.len() - i,
                {
                    if str_eq(entries[i].0.as_str(), key) {
                        proof {
                            lemma_lookup_skip(view, key@, i as int);
                            assert(view.skip(i as int)[0] == view[i as int]);
                            assert(view[i as int].0 == key@);
                        }
                        return Some(&entries[i].1);
                    }
                    i = i + 1;
                }
                proof {
                    lemma_lookup_skip(view, key@, i as int);
                    assert(view.skip(i as int).len() == 0);
                }
                None
            }
            _ => None,
        }
    }
}

/// Follows a dot-separated `path` through nested objects (as
/// `get_nested_value`): every piece between dots names a key.
pub fn get_nested_value<'a>(json: &'a JsonValue, path: &str) -> (r: Option<&'a JsonValue>)
    ensures
        opt_json(r) == at_path(json.json(), path@),
{
    let parts = split_char(path, '.');
    let ghost pv = strings_view(parts@);
    let mut current: &JsonValue = json;
    let mut i: usize = 0;
    assert(pv.skip(0) =~= pv);
    while i < parts.len()
        invariant
            pv == strings_view(parts@),
            pv == split_on(path@, '.'),
            i <= parts.len(),
            nested(json.json(), pv) == nested(current.json(), pv.skip(i as int)),
        decreases parts.len() - i,
    {
        let ghost rest = pv.skip(i as int);
        assert(rest[0] == parts@[i as int]@);
        assert(rest.drop_first() =~= pv.skip(i + 1));
        match current.get(parts[i].as_str()) {
            Some(v) => {
                current = v;
            },
            None => {
                return None;
            },
        }
        i = i + 1;
    }
    assert(pv.skip(i as int) =~= Seq::<Seq<char>>::empty());
    Some(current)
}


/// `entries` with `key` bound to `v` (as `Map::insert`): the first entry under
/// `key` gets the new value, or a new entry is added at the end.
pub open spec fn entries_insert(entries: Seq<(Seq<char>, Json)>, key: Seq<char>, v: Json) -> Seq<
    (Seq<char>, Json),
>
    decreases entries.len(),
{
    if entries.len() == 0 {
        seq![(key, v)]
    } else if entries[0].0 == key {
        entries.update(0, (key, v))
    } else {
        seq![entries[0]] + entries_insert(entries.drop_first(), key, v)
    }
}

/// `j` with `key` bound to `v` when `j` is an object; any other value is
/// left as it is.
pub open spec fn json_insert(j: Json, key: Seq<char>, v: Json) -> Json {
    match j {
        Json::Object(entries) => Json::Object(entries_insert(entries, key, v)),
        _ => j,
    }
}

/// Reading a key back after inserting it gives the inserted value; every
/// other key reads as before.
pub proof fn lemma_lookup_insert(
    entries: Seq<(Seq<char>, Json)>,
    key: Seq<char>,
    v: Json,
    other: Seq<char>,
)
    ensures
        lookup(entries_insert(entries, key, v), key) == Some(v),
        other != key ==> lookup(entries_insert(entries, key, v), other) == lookup(entries, other),
    decreases entries.len(),
{
    let ins = entries_insert(entries, key, v);
    if entries.len() > 0 && entries[0].0 != key {
        lemma_lookup_insert(entries.drop_first(), key, v, other);
        assert(ins[0] == entries[0]);
        assert(ins.drop_first() =~= entries_insert(entries.drop_first(), key, v));
        if other != key && entries[0].0 != other {
            assert(lookup(ins, other) == lookup(ins.drop_first(), other));
        }
    } else if entries.len() > 0 {
        assert(ins.drop_first() =~= entries.drop_first());
        assert(ins[0] == (key, v));
    } else {
        assert(ins[0] == (key, v));
        assert(ins.drop_first() =~= Seq::<(Seq<char>, Json)>::empty());
    }
}

proof fn lemma_insert_at(entries: Seq<(Seq<char>, Json)>, key: Seq<char>, v: Json, i: int)
    requires
        0 <= i <= entries.len(),
        forall|j: int| 0 <= j < i ==> entries[j].0 != key,
    ensures
        i < entries.len() && entries[i].0 == key ==> entries_insert(entries, key, v)
            == entries.update(i, (key, v)),
        i == entries.len() ==> entries_insert(entries, key, v) == entries.push((key, v)),
    decreases i,
{
    if i > 0 {
        lemma_insert_at(entries.drop_first(), key, v, i - 1);
        if i < entries.len() && entries[i].0 == key {
            assert(seq![entries[0]] + entries.drop_first().update(i - 1, (key, v)) =~= entries.update(
                i,
                (key, v),
            ));
        }
        if i == entries.len() {
            assert(seq![entries[0]] + entries.drop_first().push((key, v)) =~= entries.push((key, v)));
        }
    } else if entries.len() == 0 {
        assert(seq![(key, v)] =~= entries.push((key, v)));
    }
}

impl JsonValue {
    /// A copy of this value.
    pub fn deep_clone(&self) -> (r: JsonValue)
        ensures
            r.json() == self.json(),
        decreases self,
    {
        match self {
            JsonValue::Null => JsonValue::Null,
            JsonValue::Bool(b) => JsonValue::Bool(*b),
            JsonValue::Number(n) => JsonValue::Number(*n),
            JsonValue::String(s) => JsonValue::String(s.clone()),
            JsonValue::Array(items) => {
                let mut out: Vec<JsonValue> = Vec::new();
                let mut i: usize = 0;
                proof {
                    lemma_items_json(*items, items.len() as nat);
                }
                while i < items.len()
                    invariant
                        *self == JsonValue::Array(*items),
                        i <= items.len(),
                        out.len() == i,
                        forall|k: int| 0 <= k < i ==> #[trigger] out[k].json() == items[k].json(),
                    decreases items.len() - i,
                {
                    proof {
                        vstd::std_specs::vec::axiom_vec_index_decreases(*items, i as int);
                        assert(*items == self->Array_0);
                        assert(decreases_to!(*self => *items));
                        assert(decreases_to!(*self => items[i as int]));
                    }
                    let c = items[i].deep_clone();
                    out.push(c);
                    i = i + 1;
                }
                proof {
                    lemma_items_json(out, out.len() as nat);
                    assert(items_json(out, out.len() as nat) =~= items_json(*items, items.len() as nat));
                }
                JsonValue::Array(out)
            },
            JsonValue::Object(entries) => {
                let mut out: Vec<(String, JsonValue)> = Vec::new();
                let mut i: usize = 0;
                proof {
                    lemma_entries_json(*entries, entries.len() as nat);
                }
                while i < entries.len()
                    invariant
                        *self == JsonValue::Object(*entries),
                        i <= entries.len(),
                        out.len() == i,
                        forall|k: int|
                            0 <= k < i ==> #[trigger] out[k].0@ == entries[k].0@ && out[k].1.json()
                                == entries[k].1.json(),
                    decreases entries.len() - i,
                {
                    proof {
                        vstd::std_specs::vec::axiom_vec_index_decreases(*entries, i as int);
                        assert(*entries == self->Object_0);
                        assert(decreases_to!(*self => *entries));
                        assert(decreases_to!(entries[i as int] => entries[i as int].1));
                        assert(decreases_to!(*self => entries[i as int].1));
                    }
                    let k = entries[i].0.clone();
                    let c = entries[i].1.deep_clone();
                    out.push((k, c));
                    i = i + 1;
                }
                proof {
                    lemma_entries_json(out, out.len() as nat);
                    assert(entries_json(out, out.len() as nat) =~= entries_json(
                        *entries,
                        entries.len() as nat,
                    ));
                }
                JsonValue::Object(out)
            },
        }
    }

    /// Binds `key` to `value` when this is an object (as `Map::insert` on the
    /// object's map); any other value is left unchanged.
    pub fn insert_field(&mut self, key: String, value: JsonValue)
        ensures
            final(self).json() == json_insert(old(self).json(), key@, value.json()),
    {
        match self {
            JsonValue::Object(entries) => {
                object_insert(entries, key, value);
            },
            _ => {},
        }
    }
}

/// Binds `key` to `value` in the entries of an object (as `Map::insert`).
pub fn object_insert(entries: &mut Vec<(String, JsonValue)>, key: String, value: JsonValue)
    ensures
        object_view(*final(entries)) == entries_insert(object_view(*old(entries)), key@, value.json()),
{
    let ghost view = object_view(*entries);
    proof {
        lemma_entries_json(*entries, entries.len() as nat);
    }
    let mut i: usize = 0;
    let mut found = false;
    while i < entries.len() && !found
        invariant
            view == object_view(*old(entries)),
            found ==> i < entries.len() && view[i as int].0 == key@,
            *entries == *old(entries),
            view.len() == entries.len(),
            forall|k: int| 0 <= k < entries.len() ==> #[trigger] view[k] == (entries[k].0@, entries[k].1.json()),
            i <= entries.len(),
            forall|j: int| 0 <= j < i ==> view[j].0 != key@,
        decreases entries.len() - i + (if found { 0int } else { 1int }),
    {
        if str_eq(entries[i].0.as_str(), key.as_str()) {
            found = true;
        } else {
            i = i + 1;
        }
    }
    let ghost kv = key@;
    let ghost vv = value.json();
    proof {
        lemma_insert_at(view, kv, vv, i as int);
    }
    if found {
        entries.set(i, (key, value));
    } else {
        entries.push((key, value));
    }
    proof {
        lemma_entries_json(*entries, entries.len() as nat);
        assert(object_view(*entries) =~= entries_insert(view, kv, vv));
    }
}

} // verus!
