//! A JSON document model: the executable value type and its mathematical view.

use vstd::prelude::*;

verus! {

broadcast use vstd::std_specs::vec::group_vec_axioms;

/// A JSON number. `NegInt` holds negative integers only (a non-negative
/// integer is a `PosInt`); `Float` holds the IEEE-754 bit pattern of a
/// finite double.
#[derive(Clone, Copy, Debug, PartialEq)]
pub enum JsonNumber {
    PosInt(u64),
    NegInt(i64),
    Float(u64),
}

/// A JSON value. An object keeps its members in insertion order and holds
/// each key at most once when built through this library; two objects
/// compare equal with `==` only when their members stand in the same order.
#[derive(Debug, PartialEq)]
pub enum JsonValue {
    Null,
    Bool(bool),
    Number(JsonNumber),
    String(String),
    Array(Vec<JsonValue>),
    Object(Vec<(String, JsonValue)>),
}

/// The mathematical view of a JSON value.
pub enum Json {
    Null,
    Bool(bool),
    Number(JsonNumber),
    String(Seq<char>),
    Array(Seq<Json>),
    Object(Seq<(Seq<char>, Json)>),
}

pub open spec fn json_view(v: JsonValue) -> Json
    decreases v,
{
    match v {
        JsonValue::Null => Json::Null,
        JsonValue::Bool(b) => Json::Bool(b),
        JsonValue::Number(n) => Json::Number(n),
        JsonValue::String(s) => Json::String(s@),
        JsonValue::Array(items) => Json::Array(
            Seq::new(
                items.len() as nat,
                |i: int|
                    if 0 <= i < items.len() {
                        json_view(items[i])
                    } else {
                        Json::Null
                    },
            ),
        ),
        JsonValue::Object(entries) => Json::Object(
            Seq::new(
                entries.len() as nat,
                |i: int|
                    if 0 <= i < entries.len() {
                        (entries[i].0@, json_view(entries[i].1))
                    } else {
                        (Seq::empty(), Json::Null)
                    },
            ),
        ),
    }
}

impl View for JsonValue {
    type V = Json;

    open spec fn view(&self) -> Json {
        json_view(*self)
    }
}

impl JsonNumber {
    /// The number as an unsigned 64-bit integer, where it is one.
    pub open spec fn spec_as_u64(&self) -> Option<u64> {
        match *self {
            JsonNumber::PosInt(n) => Some(n),
            _ => None,
        }
    }

    #[verifier::when_used_as_spec(spec_as_u64)]
    pub fn as_u64(&self) -> (r: Option<u64>)
        ensures
            r == self.spec_as_u64(),
    {
        match self {
            JsonNumber::PosInt(n) => Some(*n),
            _ => None,
        }
    }
}

/// Index of the first member under `key`, or the number of members if there
/// is none.
pub open spec fn key_position(members: Seq<(Seq<char>, Json)>, key: Seq<char>) -> int
    decreases members.len(),
{
    if members.len() == 0 {
        0
    } else if members[0].0 == key {
        0
    } else {
        1 + key_position(members.drop_first(), key)
    }
}

/// The value of the first member under `key`.
pub open spec fn lookup(members: Seq<(Seq<char>, Json)>, key: Seq<char>) -> Option<Json> {
    let p = key_position(members, key);
    if p < members.len() {
        Some(members[p].1)
    } else {
        None
    }
}

/// The members with `key` bound to `v`: the first member under `key` is
/// replaced in place, or a new member is appended.
pub open spec fn store(members: Seq<(Seq<char>, Json)>, key: Seq<char>, v: Json) -> Seq<
    (Seq<char>, Json),
> {
    let p = key_position(members, key);
    if p < members.len() {
        members.update(p, (key, v))
    } else {
        members.push((key, v))
    }
}

/// The member of an object under `key`; nothing for any other value.
pub open spec fn member(doc: Json, key: Seq<char>) -> Option<Json> {
    match doc {
        Json::Object(members) => lookup(members, key),
        _ => None,
    }
}

/// The member under `key`, or null where there is none.
pub open spec fn member_or_null(doc: Json, key: Seq<char>) -> Json {
    match member(doc, key) {
        Some(v) => v,
        None => Json::Null,
    }
}

/// Whether a member can be written into the document: it is an object, or
/// null (which becomes an empty object first).
pub open spec fn accepts_members(doc: Json) -> bool {
    doc is Object || doc is Null
}

/// The document with `key` bound to `v`.
pub open spec fn with_member(doc: Json, key: Seq<char>, v: Json) -> Json {
    match doc {
        Json::Object(members) => Json::Object(store(members, key, v)),
        _ => Json::Object(seq![(key, v)]),
    }
}

/// `key_position` is the first index whose key matches.
pub proof fn lemma_key_position(members: Seq<(Seq<char>, Json)>, key: Seq<char>, i: int)
    requires
        0 <= i <= members.len(),
        forall|j: int| 0 <= j < i ==> members[j].0 != key,
        i == members.len() || members[i].0 == key,
    ensures
        key_position(members, key) == i,
    decreases i,
{
    if i > 0 {
        let rest = members.drop_first();
        assert forall|j: int| 0 <= j < i - 1 implies rest[j].0 != key by {
            assert(members[j + 1].0 != key);
        }
        lemma_key_position(rest, key, i - 1);
    }
}

/// What `key_position` says of the members before and at it.
pub proof fn lemma_key_position_bounds(members: Seq<(Seq<char>, Json)>, key: Seq<char>)
    ensures
        0 <= key_position(members, key) <= members.len(),
        forall|j: int| 0 <= j < key_position(members, key) ==> members[j].0 != key,
        key_position(members, key) == members.len() || members[key_position(members, key)].0
            == key,
    decreases members.len(),
{
    if members.len() > 0 && members[0].0 != key {
        let rest = members.drop_first();
        lemma_key_position_bounds(rest, key);
        assert forall|j: int| 0 <= j < key_position(members, key) implies members[j].0 != key by {
            if j > 0 {
                assert(members[j] == rest[j - 1]);
            }
        }
    }
}

/// After binding `key` to `v`, `key` reads back `v`.
pub proof fn lemma_store_same(members: Seq<(Seq<char>, Json)>, key: Seq<char>, v: Json)
    ensures
        lookup(store(members, key, v), key) == Some(v),
{
    let p = key_position(members, key);
    let after = store(members, key, v);
    lemma_key_position_bounds(members, key);
    lemma_key_position(after, key, p);
}

/// Binding `key` leaves every other key as it was.
pub proof fn lemma_store_other(
    members: Seq<(Seq<char>, Json)>,
    key: Seq<char>,
    v: Json,
    other: Seq<char>,
)
    requires
        key != other,
    ensures
        lookup(store(members, key, v), other) == lookup(members, other),
{
    let p = key_position(members, key);
    let q = key_position(members, other);
    let after = store(members, key, v);
    lemma_key_position_bounds(members, key);
    lemma_key_position_bounds(members, other);
    if q < members.len() {
        assert forall|j: int| 0 <= j < q implies after[j].0 != other by {
            if j != p {
                assert(after[j] == members[j]);
            }
        }
        assert(after[q] == members[q]);
        lemma_key_position(after, other, q);
    } else {
        assert forall|j: int| 0 <= j < after.len() implies after[j].0 != other by {
            if j != p && j < members.len() {
                assert(after[j] == members[j]);
            }
        }
        lemma_key_position(after, other, after.len() as int);
    }
}

/// Index of the first member of `entries` under `key`, or its length.
fn find_key(entries: &Vec<(String, JsonValue)>, key: &String) -> (r: usize)
    ensures
        r == key_position(json_view(JsonValue::Object(*entries))->Object_0, key@),
        r <= entries.len(),
{
    let ghost members = json_view(JsonValue::Object(*entries))->Object_0;
    let mut i: usize = 0;
    while i < entries.len()
        invariant
            i <= entries.len(),
            members == json_view(JsonValue::Object(*entries))->Object_0,
            members.len() == entries.len(),
            forall|j: int| 0 <= j < entries.len() ==> members[j].0 == entries@[j].0@,
            forall|j: int| 0 <= j < i ==> members[j].0 != key@,
        decreases entries.len() - i,
    {
        if entries[i].0 == *key {
            proof {
                lemma_key_position(members, key@, i as int);
            }
            return i;
        }
        i = i + 1;
    }
    proof {
        lemma_key_position(members, key@, i as int);
    }
    i
}

/// A copy of `v` with the same view.
pub fn copy_value(v: &JsonValue) -> (r: JsonValue)
    ensures
        r@ == v@,
    decreases v,
{
    match v {
        JsonValue::Null => JsonValue::Null,
        JsonValue::Bool(b) => JsonValue::Bool(*b),
        JsonValue::Number(n) => JsonValue::Number(*n),
        JsonValue::String(s) => JsonValue::String(s.clone()),
        JsonValue::Array(items) => {
            let mut out: Vec<JsonValue> = Vec::new();
            let mut i: usize = 0;
            while i < items.len()
                invariant
                    *v == JsonValue::Array(*items),
                    i <= items.len(),
                    out.len() == i,
                    forall|j: int| 0 <= j < i ==> out@[j]@ == items@[j]@,
                decreases items.len() - i,
            {
                proof {
                    assert(decreases_to!(*v => (*v)->Array_0));
                    assert(decreases_to!(*items => items[i as int]));
                }
                let c = copy_value(&items[i]);
                out.push(c);
                i = i + 1;
            }
            let r = JsonValue::Array(out);
            assert(r@->Array_0 =~= v@->Array_0);
            r
        },
        JsonValue::Object(entries) => {
            let mut out: Vec<(String, JsonValue)> = Vec::new();
            let mut i: usize = 0;
            while i < entries.len()
                invariant
                    *v == JsonValue::Object(*entries),
                    i <= entries.len(),
                    out.len() == i,
                    forall|j: int|
                        0 <= j < i ==> out@[j].0@ == entries@[j].0@ && out@[j].1@
                            == entries@[j].1@,
                decreases entries.len() - i,
            {
                let k = entries[i].0.clone();
                proof {
                    assert(decreases_to!(*v => (*v)->Object_0));
                    assert(decreases_to!(*entries => entries[i as int]));
                    assert(decreases_to!(entries[i as int] => entries[i as int].1));
                }
                let c = copy_value(&entries[i].1);
                out.push((k, c));
                i = i + 1;
            }
            let r = JsonValue::Object(out);
            assert(r@->Object_0 =~= v@->Object_0);
            r
        },
    }
}

impl Clone for JsonValue {
    fn clone(&self) -> (r: Self)
        ensures
            r@ == self@,
    {
        copy_value(self)
    }
}

impl JsonValue {
    /// The member under `key` of an object; nothing for any other value.
    pub fn get(&self, key: &str) -> (r: Option<&JsonValue>)
        ensures
            (match r {
                Some(v) => Some(v@),
                None => None,
            }) == member(self@, key@),
    {
        match self {
            JsonValue::Object(entries) => {
                let k = key.to_owned();
                let p = find_key(entries, &k);
                if p < entries.len() {
                    Some(&entries[p].1)
                } else {
                    None
                }
            },
            _ => None,
        }
    }

    /// The value as an unsigned 64-bit integer, where it is one.
    pub fn as_u64(&self) -> (r: Option<u64>)
        ensures
            r == (match self@ {
                Json::Number(n) => n.spec_as_u64(),
                _ => None,
            }),
    {
        match self {
            JsonValue::Number(n) => n.as_u64(),
            _ => None,
        }
    }

    /// Binds `key` to `v`, replacing the value of an existing member in
    /// place or appending a new one; a null value becomes an object first.
    pub fn insert(&mut self, key: String, v: JsonValue)
        requires
            accepts_members(old(self)@),
        ensures
            final(self)@ == with_member(old(self)@, key@, v@),
    {
        match self {
            JsonValue::Object(entries) => {
                let ghost old_members = json_view(JsonValue::Object(*entries))->Object_0;
                let p = find_key(entries, &key);
                let ghost kv = key@;
                let ghost vv = v@;
                if p < entries.len() {
                    entries.set(p, (key, v));
                } else {
                    entries.push((key, v));
                }
                assert(json_view(JsonValue::Object(*entries))->Object_0 =~= store(
                    old_members,
                    kv,
                    vv,
                ));
            },
            _ => {
                let ghost kv = key@;
                let ghost vv = v@;
                let r = JsonValue::Object(vec![(key, v)]);
                assert(r@->Object_0 =~= seq![(kv, vv)]);
                *self = r;
            },
        }
    }
}

} // verus!
