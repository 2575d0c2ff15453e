//! JSON values as messages carry them in their `data` and `extras`.

use crate::text::owned;
use vstd::prelude::*;

verus! {

/// A JSON value. Numbers keep their textual form; object members keep their
/// order.
#[derive(Debug)]
pub enum JsonValue {
    Null,
    Bool(bool),
    Number(String),
    String(String),
    Array(Vec<JsonValue>),
    Object(Vec<(String, JsonValue)>),
}

/// The first member of `members` named `key`, if any.
pub open spec fn member_of(members: Seq<(String, JsonValue)>, key: Seq<char>) -> Option<JsonValue>
    decreases members.len(),
{
    if members.len() == 0 {
        None
    } else if members[0].0@ == key {
        Some(members[0].1)
    } else {
        member_of(members.drop_first(), key)
    }
}

/// Whether `b` holds the same JSON value as `a`: the same variant, the same
/// text, and, item by item, the same contents.
pub open spec fn same_json(a: JsonValue, b: JsonValue) -> bool
    decreases a,
{
    match a {
        JsonValue::Null => b is Null,
        JsonValue::Bool(x) => b == JsonValue::Bool(x),
        JsonValue::Number(x) => b matches JsonValue::Number(y) && y@ == x@,
        JsonValue::String(x) => b matches JsonValue::String(y) && y@ == x@,
        JsonValue::Array(xs) => b matches JsonValue::Array(ys) && ys.len() == xs.len()
            && forall|i: int| 0 <= i < xs.len() ==> same_json(#[trigger] xs[i], ys[i]),
        JsonValue::Object(ms) => b matches JsonValue::Object(ns) && ns.len() == ms.len()
            && forall|i: int| 0 <= i < ms.len() ==> (#[trigger] ns[i]).0@ == ms[i].0@
                && same_json(ms[i].1, ns[i].1),
    }
}

impl Clone for JsonValue {
    fn clone(&self) -> (r: JsonValue)
        ensures
            same_json(*self, r),
            json_model(r) == json_model(*self),
    {
        let r = self.duplicate();
        proof {
            lemma_same_json_model(*self, r);
        }
        r
    }
}

/// `v` is the JSON string `t`.
pub open spec fn is_json_string(v: JsonValue, t: Seq<char>) -> bool {
    v matches JsonValue::String(s) && s@ == t
}

/// `v` is an object whose members are the pairs of `pairs`, in order, each
/// value a JSON string.
pub open spec fn is_string_object(v: JsonValue, pairs: Seq<(String, String)>) -> bool {
    v matches JsonValue::Object(members) && string_members(members@, pairs)
}

/// The members are the pairs of `pairs`, in order, each value a JSON
/// string.
pub open spec fn string_members(members: Seq<(String, JsonValue)>, pairs: Seq<(String, String)>) -> bool {
    &&& members.len() == pairs.len()
    &&& forall|i: int| 0 <= i < members.len() ==> (#[trigger] members[i]).0@ == pairs[i].0@
        && is_json_string(members[i].1, pairs[i].1@)
}

/// The member named `key` when `v` is an object that has one.
pub open spec fn spec_get(v: JsonValue, key: Seq<char>) -> Option<JsonValue> {
    match v {
        JsonValue::Object(members) => member_of(members@, key),
        _ => None,
    }
}

impl JsonValue {
    /// A copy of the value.
    pub fn duplicate(&self) -> (r: JsonValue)
        ensures
            same_json(*self, r),
        decreases self,
    {
        match self {
            JsonValue::Null => JsonValue::Null,
            JsonValue::Bool(b) => JsonValue::Bool(*b),
            JsonValue::Number(n) => JsonValue::Number(n.clone()),
            JsonValue::String(s) => JsonValue::String(s.clone()),
            JsonValue::Array(items) => {
                let mut out: Vec<JsonValue> = Vec::new();
                let mut i: usize = 0;
                while i < items.len()
                    invariant
                        0 <= i <= items.len(),
                        *self == JsonValue::Array(*items),
                        out.len() == i,
                        forall|j: int| 0 <= j < i ==> same_json(#[trigger] items[j], out[j]),
                    decreases items.len() - i,
                {
                    assert(decreases_to!(*self => self->Array_0));
                    assert(decreases_to!(*items => items[i as int]));
                    assert(decreases_to!(*self => items[i as int]));
                    let x = items[i].duplicate();
                    out.push(x);
                    i = i + 1;
                }
                JsonValue::Array(out)
            },
            JsonValue::Object(members) => {
                let mut out: Vec<(String, JsonValue)> = Vec::new();
                let mut i: usize = 0;
                while i < members.len()
                    invariant
                        0 <= i <= members.len(),
                        *self == JsonValue::Object(*members),
                        out.len() == i,
                        forall|j: int| 0 <= j < i ==> (#[trigger] out[j]).0@ == members[j].0@
                            && same_json(members[j].1, out[j].1),
                    decreases members.len() - i,
                {
                    assert(decreases_to!(*self => self->Object_0));
                    assert(decreases_to!(*members => members[i as int]));
                    assert(decreases_to!(members[i as int] => members[i as int].1));
                    assert(decreases_to!(*self => members[i as int].1));
                    let x = members[i].1.duplicate();
                    out.push((members[i].0.clone(), x));
                    i = i + 1;
                }
                JsonValue::Object(out)
            },
        }
    }

    /// The member named `key` when the value is an object that has one.
    pub fn get(&self, key: &str) -> (r: Option<&JsonValue>)
        ensures
            match r {
                None => spec_get(*self, key@) is None,
                Some(v) => spec_get(*self, key@) == Some(*v),
            },
    {
        match self {
            JsonValue::Object(members) => {
                let wanted = owned(key);
                let mut i: usize = 0;
                assert(members@.subrange(0, members@.len() as int) =~= members@);
                while i < members.len()
                    invariant
                        wanted@ == key@,
                        spec_get(*self, key@) == member_of(members@, key@),
                        0 <= i <= members.len(),
                        member_of(members@.subrange(i as int, members@.len() as int), key@)
                            == member_of(members@, key@),
                    decreases members.len() - i,
                {
                    let ghost rest = members@.subrange(i as int, members@.len() as int);
                    assert(rest[0] == members@[i as int]);
                    assert(rest.drop_first() =~= members@.subrange(i + 1, members@.len() as int));
                    if members[i].0 == wanted {
                        return Some(&members[i].1);
                    }
                    i = i + 1;
                }
                assert(members@.subrange(members@.len() as int, members@.len() as int).len() == 0);
                None
            },
            _ => None,
        }
    }

    /// The text of the value when it is a string.
    pub fn as_str(&self) -> (r: Option<&String>)
        ensures
            match r {
                None => !(*self is String),
                Some(s) => *self == JsonValue::String(*s),
            },
    {
        match self {
            JsonValue::String(s) => Some(s),
            _ => None,
        }
    }

    /// Whether the value is `null`.
    pub fn is_null(&self) -> (r: bool)
        ensures
            r == (*self is Null),
    {
        match self {
            JsonValue::Null => true,
            _ => false,
        }
    }
}

/// What a JSON value denotes: text by its characters, items and members by
/// what they denote, in order.
pub enum JsonModel {
    Null,
    Bool(bool),
    Number(Seq<char>),
    String(Seq<char>),
    Array(Seq<JsonModel>),
    Object(Seq<(Seq<char>, JsonModel)>),
}

/// What `v` denotes.
pub open spec fn json_model(v: JsonValue) -> JsonModel
    decreases v,
{
    match v {
        JsonValue::Null => JsonModel::Null,
        JsonValue::Bool(b) => JsonModel::Bool(b),
        JsonValue::Number(n) => JsonModel::Number(n@),
        JsonValue::String(s) => JsonModel::String(s@),
        JsonValue::Array(xs) => JsonModel::Array(
            Seq::new(
                xs.len() as nat,
                |i: int|
                    if 0 <= i < xs.len() {
                        proof {
                            assert(decreases_to!(v => xs));
                            assert(decreases_to!(xs => xs[i]));
                        }
                        json_model(xs[i])
                    } else {
                        JsonModel::Null
                    },
            ),
        ),
        JsonValue::Object(ms) => JsonModel::Object(
            Seq::new(
                ms.len() as nat,
                |i: int|
                    if 0 <= i < ms.len() {
                        proof {
                            assert(decreases_to!(v => ms));
                            assert(decreases_to!(ms => ms[i]));
                            assert(decreases_to!(ms[i] => ms[i].1));
                        }
                        (ms[i].0@, json_model(ms[i].1))
                    } else {
                        (Seq::empty(), JsonModel::Null)
                    },
            ),
        ),
    }
}

/// Two values that hold the same JSON denote the same thing.
pub proof fn lemma_same_json_model(a: JsonValue, b: JsonValue)
    requires
        same_json(a, b),
    ensures
        json_model(a) == json_model(b),
    decreases a,
{
    match a {
        JsonValue::Array(xs) => {
            let ys = b->Array_0;
            assert forall|i: int| 0 <= i < xs.len() implies json_model(xs[i]) == json_model(ys[i]) by {
                assert(decreases_to!(a => xs));
                assert(decreases_to!(xs => xs[i]));
                lemma_same_json_model(xs[i], ys[i]);
            }
            assert(json_model(a)->Array_0 =~= json_model(b)->Array_0);
        },
        JsonValue::Object(ms) => {
            let ns = b->Object_0;
            assert forall|i: int| 0 <= i < ms.len() implies json_model(ms[i].1) == json_model(ns[i].1) by {
                assert(decreases_to!(a => ms));
                assert(decreases_to!(ms => ms[i]));
                assert(decreases_to!(ms[i] => ms[i].1));
                lemma_same_json_model(ms[i].1, ns[i].1);
            }
            assert(json_model(a)->Object_0 =~= json_model(b)->Object_0);
        },
        _ => {},
    }
}

} // verus!
