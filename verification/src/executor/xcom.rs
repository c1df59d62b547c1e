//! Passing the outputs of upstream tasks into a task's configuration.
use vstd::prelude::*;
use vstd::string::*;
use crate::json::{
    entry_insert, entry_lookup, find_entry, is_first_entry, lemma_first_entry_lookup,
    lemma_lookup_none, lemma_lookup_push_other, lemma_lookup_update_other, lemma_lookup_update_same,
    JsonValue,
};

verus! {

/// `r` is `config` with `value` stored under `key` in its `xcom` member:
/// a configuration that is not an object is replaced by an empty object,
/// a missing `xcom` member is created as an empty object, and an `xcom`
/// member that is not an object is left alone.  All other members are
/// unchanged.
pub open spec fn xcom_injected(config: JsonValue, key: String, value: JsonValue, r: JsonValue) -> bool {
    &&& r is Object
    &&& forall|k: Seq<char>| k != "xcom"@ ==> #[trigger] r.spec_get(k) == config.spec_get(k)
    &&& match config.spec_get("xcom"@) {
        None => match r.spec_get("xcom"@) {
            Some(JsonValue::Object(ys)) => ys@ == entry_insert(Seq::empty(), key, value),
            _ => false,
        },
        Some(JsonValue::Object(xs)) => match r.spec_get("xcom"@) {
            Some(JsonValue::Object(ys)) => ys@ == entry_insert(xs@, key, value),
            _ => false,
        },
        Some(other) => r.spec_get("xcom"@) == Some(other),
    }
}

/// Stores `value` under `key` in object entries: an entry with that key is
/// overwritten in place, otherwise the pair is appended.
pub fn object_insert(entries: &mut Vec<(String, JsonValue)>, key: String, value: JsonValue)
    ensures
        final(entries)@ == entry_insert(old(entries)@, key, value),
{
    match find_entry(entries, key.as_str()) {
        Some(i) => {
            let (k, _old_value) = entries.remove(i);
            entries.insert(i, (k, value));
            proof {
                assert(entries@ =~= old(entries)@.update(i as int, (old(entries)@[i as int].0, value)));
                let c = choose|c: int| is_first_entry(old(entries)@, key@, c);
                assert(c == i) by {
                    if c < i {
                        assert(old(entries)@[c].0@ != key@);
                    } else if i < c {
                        assert(old(entries)@[i as int].0@ != key@);
                    }
                }
            }
        },
        None => {
            entries.push((key, value));
        },
    }
}

/// Injects the output `value` of upstream task `upstream_task_id` into a
/// task configuration, under `xcom.<upstream_task_id>`.
pub fn inject_xcom(config: JsonValue, upstream_task_id: String, value: JsonValue) -> (r: JsonValue)
    ensures
        xcom_injected(config, upstream_task_id, value, r),
{
    let ghost c0 = config;
    let mut entries: Vec<(String, JsonValue)> = match config {
        JsonValue::Object(es) => es,
        _ => Vec::new(),
    };
    let ghost e0 = entries@;
    proof {
        assert forall|k: Seq<char>| entry_lookup(e0, k) == c0.spec_get(k) by {
            if !(c0 is Object) {
                assert(!exists|i: int| is_first_entry(e0, k, i));
            }
        }
    }
    let pos: usize = match find_entry(&entries, "xcom") {
        Some(p) => {
            proof {
                lemma_first_entry_lookup(e0, "xcom"@, p as int);
            }
            p
        },
        None => {
            let ghost before = entries@;
            let xk = String::from_str("xcom");
            entries.push((xk, JsonValue::Object(Vec::new())));
            proof {
                lemma_lookup_none(e0, "xcom"@);
                assert(is_first_entry(entries@, "xcom"@, before.len() as int));
                assert forall|k: Seq<char>| k != "xcom"@ implies entry_lookup(entries@, k) == c0.spec_get(k) by {
                    lemma_lookup_push_other(before, entries@.last(), k);
                }
            }
            entries.len() - 1
        },
    };
    let ghost e1 = entries@;
    proof {
        assert(is_first_entry(e1, "xcom"@, pos as int));
        assert forall|k: Seq<char>| k != "xcom"@ implies entry_lookup(e1, k) == c0.spec_get(k) by {}
    }
    let (k, v) = entries.remove(pos);
    let ghost xcom_before = v;
    let v2 = match v {
        JsonValue::Object(mut xs) => {
            object_insert(&mut xs, upstream_task_id, value);
            JsonValue::Object(xs)
        },
        other => other,
    };
    entries.insert(pos, (k, v2));
    proof {
        assert(entries@ =~= e1.update(pos as int, (k, v2)));
        assert(k@ == "xcom"@);
        lemma_lookup_update_same(e1, pos as int, (k, v2));
        assert forall|key: Seq<char>| key != "xcom"@ implies #[trigger] JsonValue::Object(entries).spec_get(key)
            == c0.spec_get(key) by {
            lemma_lookup_update_other(e1, pos as int, (k, v2), key);
        }
    }
    JsonValue::Object(entries)
}

/// Storing `value` under `key` makes a lookup of `key` find `value`, and
/// leaves lookups of other keys alone.
pub proof fn lemma_entry_insert_lookup(entries: Seq<(String, JsonValue)>, key: String, value: JsonValue, other: Seq<char>)
    ensures
        entry_lookup(entry_insert(entries, key, value), key@) == Some(value),
        other != key@ ==> entry_lookup(entry_insert(entries, key, value), other) == entry_lookup(entries, other),
{
    if exists|i: int| is_first_entry(entries, key@, i) {
        let i = choose|i: int| is_first_entry(entries, key@, i);
        lemma_lookup_update_same(entries, i, (entries[i].0, value));
        if other != key@ {
            lemma_lookup_update_other(entries, i, (entries[i].0, value), other);
        }
    } else {
        let t = entries.push((key, value));
        lemma_lookup_none(entries, key@);
        assert(is_first_entry(t, key@, entries.len() as int));
        lemma_first_entry_lookup(t, key@, entries.len() as int);
        if other != key@ {
            lemma_lookup_push_other(entries, (key, value), other);
        }
    }
}

/// After injection, the `xcom` member of the configuration holds the
/// upstream output under the upstream task's id, and keeps what it held
/// under other ids, unless that member was there and was not an object.
pub proof fn lemma_xcom_injected_finds_output(
    config: JsonValue,
    key: String,
    value: JsonValue,
    r: JsonValue,
    other: Seq<char>,
)
    requires
        xcom_injected(config, key, value, r),
    ensures
        match config.spec_get("xcom"@) {
            Some(JsonValue::Object(xs)) => match r.spec_get("xcom"@) {
                Some(JsonValue::Object(ys)) => entry_lookup(ys@, key@) == Some(value) && (other != key@
                    ==> entry_lookup(ys@, other) == entry_lookup(xs@, other)),
                _ => false,
            },
            None => match r.spec_get("xcom"@) {
                Some(JsonValue::Object(ys)) => entry_lookup(ys@, key@) == Some(value) && (other != key@
                    ==> entry_lookup(ys@, other) is None),
                _ => false,
            },
            Some(x) => r.spec_get("xcom"@) == Some(x),
        },
{
    match config.spec_get("xcom"@) {
        Some(JsonValue::Object(xs)) => {
            lemma_entry_insert_lookup(xs@, key, value, other);
        },
        None => {
            lemma_entry_insert_lookup(Seq::empty(), key, value, other);
            lemma_lookup_none(Seq::<(String, JsonValue)>::empty(), other);
        },
        _ => {},
    }
}

} // verus!
