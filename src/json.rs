use vstd::prelude::*;

verus! {

broadcast use vstd::std_specs::vec::axiom_vec_index_decreases;

/// A JSON document as the library reads it. Integers that fit in an `i64` are kept
/// as such; any other number is kept as its text.
#[derive(Debug, PartialEq)]
pub enum Json {
    Null,
    Bool(bool),
    Int(i64),
    Number(String),
    Str(String),
    Array(Vec<Json>),
    Object(Vec<(String, Json)>),
}

/// The value stored under `key` in the entries of an object: the first entry with that key.
pub open spec fn entry_get(entries: Seq<(String, Json)>, key: Seq<char>) -> Option<Json>
    decreases entries.len(),
{
    if entries.len() == 0 {
        None
    } else if entries[0].0@ == key {
        Some(entries[0].1)
    } else {
        entry_get(entries.drop_first(), key)
    }
}

/// The value stored under `key` in `j`, where `j` is an object.
pub open spec fn json_get(j: Json, key: Seq<char>) -> Option<Json> {
    match j {
        Json::Object(entries) => entry_get(entries@, key),
        _ => None,
    }
}

/// Whether two documents hold the same values, entry for entry.
pub open spec fn json_same(a: Json, b: Json) -> bool
    decreases a,
{
    match a {
        Json::Null => b is Null,
        Json::Bool(x) => b is Bool && b->Bool_0 == x,
        Json::Int(x) => b is Int && b->Int_0 == x,
        Json::Number(x) => b is Number && b->Number_0@ == x@,
        Json::Str(x) => b is Str && b->Str_0@ == x@,
        Json::Array(x) => b is Array && x.len() == b->Array_0.len() && forall|i: int|
            0 <= i < x.len() ==> #[trigger] json_same(x[i], b->Array_0[i]),
        Json::Object(x) => b is Object && x.len() == b->Object_0.len() && forall|i: int|
            0 <= i < x.len() ==> x[i].0@ == b->Object_0[i].0@ && #[trigger] json_same(x[i].1, b->Object_0[i].1),
    }
}

/// A copy of a JSON document, holding the same values.
pub fn clone_json(j: &Json) -> (r: Json)
    ensures
        json_same(r, *j),
    decreases j,
{
        match j {
            Json::Null => Json::Null,
            Json::Bool(b) => Json::Bool(*b),
            Json::Int(n) => Json::Int(*n),
            Json::Number(s) => Json::Number(s.clone()),
            Json::Str(s) => Json::Str(s.clone()),
            Json::Array(items) => {
                let mut out: Vec<Json> = Vec::new();
                let mut i: usize = 0;
                while i < items.len()
                    invariant
                        i <= items.len(),
                        *j is Array,
                        j->Array_0 == *items,
                        out.len() == i,
                        forall|k: int| #![trigger out[k]] 0 <= k < i ==> json_same(out[k], items[k]),
                    decreases items.len() - i,
                {
                    proof {
                        assert(decreases_to!(*j => j->Array_0));
                        assert(decreases_to!(j->Array_0 => j->Array_0[i as int]));
                    }
                    let item = clone_json(&items[i]);
                    out.push(item);
                    i = i + 1;
                }
                proof {
                    assert(json_same(Json::Array(out), *j));
                }
                Json::Array(out)
            },
            Json::Object(entries) => {
                let mut out: Vec<(String, Json)> = Vec::new();
                let mut i: usize = 0;
                while i < entries.len()
                    invariant
                        i <= entries.len(),
                        *j is Object,
                        j->Object_0 == *entries,
                        out.len() == i,
                        forall|k: int| #![trigger out[k]] 0 <= k < i ==> out[k].0@ == entries[k].0@ && json_same(out[k].1, entries[k].1),
                    decreases entries.len() - i,
                {
                    proof {
                        assert(decreases_to!(*j => j->Object_0));
                        assert(decreases_to!(j->Object_0 => j->Object_0[i as int]));
                        assert(decreases_to!(j->Object_0[i as int] => j->Object_0[i as int].1));
                    }
                    let key = entries[i].0.clone();
                    let value = clone_json(&entries[i].1);
                    out.push((key, value));
                    i = i + 1;
                }
                proof {
                    assert(json_same(Json::Object(out), *j));
                }
                Json::Object(out)
            },
        }
    }

impl Clone for Json {
    fn clone(&self) -> (r: Self)
        ensures
            json_same(r, *self),
    {
        clone_json(self)
    }
}

/// Relies on `==` of `str`: equal exactly when the characters are.
#[verifier::external_body]
pub(crate) fn same_text(a: &str, b: &str) -> (r: bool)
    ensures
        r == (a@ == b@),
{
    a == b
}

impl Json {
    pub fn is_null(&self) -> (r: bool)
        ensures
            r == (*self is Null),
    {
        match self {
            Json::Null => true,
            _ => false,
        }
    }

    /// The value stored under `key`, where this is an object holding that key.
    pub fn get(&self, key: &str) -> (r: Option<&Json>)
        ensures
            r matches Some(v) ==> json_get(*self, key@) == Some(*v),
            r is None ==> json_get(*self, key@) is None,
    {
        match self {
            Json::Object(entries) => {
                let mut i: usize = 0;
                proof {
                    assert(entries@.subrange(0, entries@.len() as int) =~= entries@);
                }
                while i < entries.len()
                    invariant
                        *self is Object,
                        self->Object_0 == *entries,
                        i <= entries.len(),
                        entry_get(entries@, key@) == entry_get(entries@.subrange(i as int, entries@.len() as int), key@),
                    decreases entries.len() - i,
                {
                    proof {
                        let rest = entries@.subrange(i as int, entries@.len() as int);
                        assert(rest.drop_first() =~= entries@.subrange(i + 1, entries@.len() as int));
                    }
                    if same_text(entries[i].0.as_str(), key) {
                        proof {
                            let rest = entries@.subrange(i as int, entries@.len() as int);
                            assert(rest[0] == entries@[i as int]);
                            assert(entry_get(rest, key@) == Some(entries@[i as int].1));
                        }
                        return Some(&entries[i].1);
                    }
                    i = i + 1;
                }
                proof {
                    assert(entries@.subrange(i as int, entries@.len() as int).len() == 0);
                }
                None
            },
            _ => None,
        }
    }
}

/// Whether `j` is an array of strings with the given texts.
pub open spec fn is_str_array(j: Json, v: Seq<Seq<char>>) -> bool {
    j is Array && j->Array_0.len() == v.len() && forall|i: int| 0 <= i < v.len() ==> {
        let item = #[trigger] j->Array_0@[i];
        item is Str && item->Str_0@ == v[i]
    }
}

/// An array of the given strings.
pub fn str_array(v: &Vec<String>) -> (r: Json)
    ensures
        is_str_array(r, v@.map_values(|s: String| s@)),
{
    let mut items: Vec<Json> = Vec::new();
    let mut i: usize = 0;
    while i < v.len()
        invariant
            i <= v.len(),
            items.len() == i,
            forall|k: int| 0 <= k < i ==> #[trigger] items@[k] is Str && items@[k]->Str_0@ == v@[k]@,
        decreases v.len() - i,
    {
        items.push(Json::Str(v[i].clone()));
        i = i + 1;
    }
    Json::Array(items)
}

/// An object entry `key: value`.
pub fn entry(key: &str, value: Json) -> (r: (String, Json))
    ensures
        r.0@ == key@,
        r.1 == value,
{
    (String::from_str(key), value)
}

} // verus!
