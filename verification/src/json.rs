//! A plain model of the JSON documents that task definitions carry as
//! operator configuration.
use vstd::prelude::*;

verus! {

/// A JSON value.  Numbers keep their textual form, objects keep their
/// entries as (key, value) pairs with distinct keys.
#[derive(Debug)]
pub enum JsonValue {
    Null,
    Bool(bool),
    Number(String),
    Str(String),
    Array(Vec<JsonValue>),
    Object(Vec<(String, JsonValue)>),
}

/// The keys of a sequence of object entries, as character sequences.
pub open spec fn entry_keys(entries: Seq<(String, JsonValue)>) -> Seq<Seq<char>> {
    entries.map_values(|e: (String, JsonValue)| e.0@)
}

/// `i` is the first entry whose key is `key`.
pub open spec fn is_first_entry(entries: Seq<(String, JsonValue)>, key: Seq<char>, i: int) -> bool {
    &&& 0 <= i < entries.len()
    &&& entries[i].0@ == key
    &&& forall|j: int| 0 <= j < i ==> entries[j].0@ != key
}

/// The value stored under `key` among `entries` (the first match).
pub open spec fn entry_lookup(entries: Seq<(String, JsonValue)>, key: Seq<char>) -> Option<JsonValue> {
    if exists|i: int| is_first_entry(entries, key, i) {
        let i = choose|i: int| is_first_entry(entries, key, i);
        Some(entries[i].1)
    } else {
        None
    }
}

/// Entries after storing `value` under `key`: an existing entry with that
/// key is overwritten in place, otherwise the pair is appended.
pub open spec fn entry_insert(entries: Seq<(String, JsonValue)>, key: String, value: JsonValue) -> Seq<
    (String, JsonValue),
> {
    if exists|i: int| is_first_entry(entries, key@, i) {
        let i = choose|i: int| is_first_entry(entries, key@, i);
        entries.update(i, (entries[i].0, value))
    } else {
        entries.push((key, value))
    }
}

impl JsonValue {
    /// The member `key` of an object; `None` for other values.
    pub open spec fn spec_get(self, key: Seq<char>) -> Option<JsonValue> {
        match self {
            JsonValue::Object(entries) => entry_lookup(entries@, key),
            _ => None,
        }
    }

    /// The member `key` when it is a string.
    pub open spec fn spec_get_str(self, key: Seq<char>) -> Option<Seq<char>> {
        match self.spec_get(key) {
            Some(JsonValue::Str(s)) => Some(s@),
            _ => None,
        }
    }
}

/// The first entry with a key is the one a lookup finds.
pub proof fn lemma_first_entry_lookup(entries: Seq<(String, JsonValue)>, key: Seq<char>, i: int)
    requires
        is_first_entry(entries, key, i),
    ensures
        entry_lookup(entries, key) == Some(entries[i].1),
{
    let c = choose|c: int| is_first_entry(entries, key, c);
    assert(c == i) by {
        if c < i {
            assert(entries[c].0@ != key);
        } else if i < c {
            assert(entries[i].0@ != key);
        }
    }
}

/// A lookup of a key finds nothing exactly when no entry has that key.
pub proof fn lemma_lookup_none(entries: Seq<(String, JsonValue)>, key: Seq<char>)
    ensures
        entry_lookup(entries, key) is None <==> forall|j: int| 0 <= j < entries.len() ==> entries[j].0@ != key,
{
    if exists|j: int| 0 <= j < entries.len() && entries[j].0@ == key {
        let j = choose|j: int| 0 <= j < entries.len() && entries[j].0@ == key;
        lemma_some_first_entry(entries, key, j);
    }
}

/// If some entry has a key, there is a first one.
pub proof fn lemma_some_first_entry(entries: Seq<(String, JsonValue)>, key: Seq<char>, j: int)
    requires
        0 <= j < entries.len(),
        entries[j].0@ == key,
    ensures
        exists|i: int| is_first_entry(entries, key, i),
    decreases j,
{
    if exists|k: int| 0 <= k < j && entries[k].0@ == key {
        let k = choose|k: int| 0 <= k < j && entries[k].0@ == key;
        lemma_some_first_entry(entries, key, k);
    } else {
        assert(is_first_entry(entries, key, j));
    }
}

/// Replacing an entry without changing its key leaves lookups of other
/// keys alone.
pub proof fn lemma_lookup_update_other(
    entries: Seq<(String, JsonValue)>,
    p: int,
    e: (String, JsonValue),
    key: Seq<char>,
)
    requires
        0 <= p < entries.len(),
        entries[p].0@ == e.0@,
        e.0@ != key,
    ensures
        entry_lookup(entries.update(p, e), key) == entry_lookup(entries, key),
{
    let t = entries.update(p, e);
    if exists|i: int| is_first_entry(entries, key, i) {
        let i = choose|i: int| is_first_entry(entries, key, i);
        assert(is_first_entry(t, key, i));
        lemma_first_entry_lookup(entries, key, i);
        lemma_first_entry_lookup(t, key, i);
    } else {
        lemma_lookup_none(entries, key);
        assert forall|j: int| 0 <= j < t.len() implies t[j].0@ != key by {}
        lemma_lookup_none(t, key);
    }
}

/// Replacing the first entry with a key makes a lookup of that key find
/// the new value.
pub proof fn lemma_lookup_update_same(entries: Seq<(String, JsonValue)>, p: int, e: (String, JsonValue))
    requires
        is_first_entry(entries, e.0@, p),
    ensures
        entry_lookup(entries.update(p, e), e.0@) == Some(e.1),
{
    let t = entries.update(p, e);
    assert(is_first_entry(t, e.0@, p));
    lemma_first_entry_lookup(t, e.0@, p);
}

/// Appending an entry leaves lookups of other keys alone.
pub proof fn lemma_lookup_push_other(entries: Seq<(String, JsonValue)>, e: (String, JsonValue), key: Seq<char>)
    requires
        e.0@ != key,
    ensures
        entry_lookup(entries.push(e), key) == entry_lookup(entries, key),
{
    let t = entries.push(e);
    if exists|i: int| is_first_entry(entries, key, i) {
        let i = choose|i: int| is_first_entry(entries, key, i);
        assert(is_first_entry(t, key, i));
        lemma_first_entry_lookup(entries, key, i);
        lemma_first_entry_lookup(t, key, i);
    } else {
        lemma_lookup_none(entries, key);
        assert forall|j: int| 0 <= j < t.len() implies t[j].0@ != key by {}
        lemma_lookup_none(t, key);
    }
}

/// Position of the first entry with key `key`, if any.
pub fn find_entry(entries: &Vec<(String, JsonValue)>, key: &str) -> (r: Option<usize>)
    ensures
        match r {
            Some(i) => is_first_entry(entries@, key@, i as int),
            None => forall|j: int| 0 <= j < entries@.len() ==> entries@[j].0@ != key@,
        },
{
    let wanted = key.to_owned();
    let mut i: usize = 0;
    while i < entries.len()
        invariant
            wanted@ == key@,
            i <= entries@.len(),
            forall|j: int| 0 <= j < i ==> entries@[j].0@ != key@,
        decreases entries@.len() - i,
    {
        if entries[i].0 == wanted {
            return Some(i);
        }
        i = i + 1;
    }
    None
}

/// `a` and `b` hold the same JSON document.
pub open spec fn json_same(a: JsonValue, b: JsonValue) -> bool
    decreases a,
{
    match a {
        JsonValue::Array(xs) => match b {
            JsonValue::Array(ys) => {
                &&& xs@.len() == ys@.len()
                &&& forall|i: int|
                    0 <= i < xs@.len() ==> #[trigger] json_same(xs@[i], ys@[i])
            },
            _ => false,
        },
        JsonValue::Object(xs) => match b {
            JsonValue::Object(ys) => {
                &&& xs@.len() == ys@.len()
                &&& forall|i: int|
                    0 <= i < xs@.len() ==> xs@[i].0@ == ys@[i].0@ && #[trigger] json_same(
                        xs@[i].1,
                        ys@[i].1,
                    )
            },
            _ => false,
        },
        _ => a == b,
    }
}

/// A copy of `v`.
pub fn clone_json(v: &JsonValue) -> (r: JsonValue)
    ensures
        json_same(*v, r),
    decreases v,
{
    match v {
        JsonValue::Null => {
            let r = JsonValue::Null;
            proof {
                assert(json_same(*v, r));
            }
            r
        },
        JsonValue::Bool(b) => JsonValue::Bool(*b),
        JsonValue::Number(n) => JsonValue::Number(n.clone()),
        JsonValue::Str(s) => JsonValue::Str(s.clone()),
        JsonValue::Array(items) => {
            let mut out: Vec<JsonValue> = Vec::new();
            let mut i: usize = 0;
            while i < items.len()
                invariant
                    *v == JsonValue::Array(*items),
                    i <= items@.len(),
                    out@.len() == i,
                    forall|j: int| 0 <= j < i ==> json_same(items@[j], #[trigger] out@[j]),
                decreases items@.len() - i,
            {
                proof {
                    assert(decreases_to!(*v => v->Array_0));
                    assert(decreases_to!(*items => items@));
                    assert(decreases_to!(items@ => items@[i as int]));
                }
                let item = clone_json(&items[i]);
                out.push(item);
                i = i + 1;
            }
            JsonValue::Array(out)
        },
        JsonValue::Object(entries) => {
            let mut out: Vec<(String, JsonValue)> = Vec::new();
            let mut i: usize = 0;
            while i < entries.len()
                invariant
                    *v == JsonValue::Object(*entries),
                    i <= entries@.len(),
                    out@.len() == i,
                    forall|j: int| 0 <= j < i ==> entries@[j].0@ == (#[trigger] out@[j]).0@,
                    forall|j: int| 0 <= j < i ==> json_same(entries@[j].1, (#[trigger] out@[j]).1),
                decreases entries@.len() - i,
            {
                let key = entries[i].0.clone();
                proof {
                    assert(decreases_to!(*v => v->Object_0));
                    assert(decreases_to!(*entries => entries@));
                    assert(decreases_to!(entries@ => entries@[i as int]));
                    assert(decreases_to!(entries@[i as int] => entries@[i as int].1));
                }
                let value = clone_json(&entries[i].1);
                out.push((key, value));
                i = i + 1;
            }
            JsonValue::Object(out)
        },
    }
}

impl Clone for JsonValue {
    fn clone(&self) -> (r: Self)
        ensures
            json_same(*self, r),
    {
        clone_json(self)
    }
}

impl JsonValue {
    /// The member `key` of an object; `None` when this is not an object or
    /// has no such member.
    pub fn get(&self, key: &str) -> (r: Option<&JsonValue>)
        ensures
            match r {
                Some(v) => self.spec_get(key@) == Some(*v),
                None => self.spec_get(key@) is None,
            },
    {
        match self {
            JsonValue::Object(entries) => {
                match find_entry(entries, key) {
                    Some(i) => {
                        proof {
                            assert(is_first_entry(entries@, key@, i as int));
                        }
                        Some(&entries[i].1)
                    },
                    None => None,
                }
            },
            _ => None,
        }
    }

    /// The member `key` of an object when it holds a string.
    pub fn get_str(&self, key: &str) -> (r: Option<&String>)
        ensures
            match r {
                Some(s) => self.spec_get_str(key@) == Some(s@),
                None => self.spec_get_str(key@) is None,
            },
    {
        match self.get(key) {
            Some(JsonValue::Str(s)) => Some(s),
            _ => None,
        }
    }

    /// Whether this value is an object.
    pub fn is_object(&self) -> (r: bool)
        ensures
            r == (self is Object),
    {
        match self {
            JsonValue::Object(_) => true,
            _ => false,
        }
    }
}

} // verus!
