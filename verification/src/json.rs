//! JSON documents as the library reads them.
//!
//! Decoding JSON text is done by the caller; these values carry what was
//! decoded. Non-integer numbers are kept without their value.
use vstd::prelude::*;

verus! {

#[derive(Debug)]
pub enum JsonValue {
    Null,
    Bool(bool),
    Integer(i64),
    OtherNumber,
    Text(String),
    Array(Vec<JsonValue>),
    Object(Vec<(String, JsonValue)>),
}

/// The first entry named `key`, if any.
pub open spec fn find_member(entries: Seq<(String, JsonValue)>, key: Seq<char>) -> Option<JsonValue>
    decreases entries.len(),
{
    if entries.len() == 0 {
        None
    } else if entries[0].0@ == key {
        Some(entries[0].1)
    } else {
        find_member(entries.drop_first(), key)
    }
}

/// The member named `key` of an object (the first, should a key repeat).
pub open spec fn member(value: JsonValue, key: Seq<char>) -> Option<JsonValue> {
    match value {
        JsonValue::Object(entries) => find_member(entries@, key),
        _ => None,
    }
}

/// The text of a string value.
pub open spec fn text_of(value: Option<JsonValue>) -> Option<Seq<char>> {
    match value {
        Some(JsonValue::Text(t)) => Some(t@),
        _ => None,
    }
}

/// The member `key` of an object, when it exists.
pub fn get<'a>(value: &'a JsonValue, key: &str) -> (result: Option<&'a JsonValue>)
    ensures
        match result {
            Some(v) => member(*value, key@) == Some(*v),
            None => member(*value, key@) is None,
        },
{
    match value {
        JsonValue::Object(entries) => {
            let mut i: usize = 0;
            assert(entries@.subrange(0, entries@.len() as int) =~= entries@);
            while i < entries.len()
                invariant
                    i <= entries@.len(),
                    member(*value, key@) == find_member(entries@, key@),
                    find_member(entries@, key@) == find_member(
                        entries@.subrange(i as int, entries@.len() as int),
                        key@,
                    ),
                decreases entries@.len() - i,
            {
                let ghost rest = entries@.subrange(i as int, entries@.len() as int);
                assert(rest[0] == entries@[i as int]);
                let chars = crate::text::chars_of(entries[i].0.as_str());
                if crate::text::equals_str(chars.as_slice(), key) {
                    return Some(&entries[i].1);
                }
                assert(rest.drop_first() =~= entries@.subrange(i + 1, entries@.len() as int));
                i = i + 1;
            }
            None
        },
        _ => None,
    }
}

/// The text of member `key`, when it is a string.
pub fn get_str<'a>(value: &'a JsonValue, key: &str) -> (result: Option<&'a String>)
    ensures
        match result {
            Some(t) => text_of(member(*value, key@)) == Some(t@),
            None => text_of(member(*value, key@)) is None,
        },
{
    match get(value, key) {
        Some(JsonValue::Text(t)) => Some(t),
        _ => None,
    }
}


/// The map that a list of entries makes when each is inserted in turn: a
/// later entry of a key replaces an earlier one.
pub open spec fn entries_map(entries: Seq<(Seq<char>, Seq<char>)>) -> Map<Seq<char>, Seq<char>>
    decreases entries.len(),
{
    if entries.len() == 0 {
        Map::empty()
    } else {
        entries_map(entries.drop_last()).insert(entries.last().0, entries.last().1)
    }
}

/// The JSON text `serde_json::to_string` writes for a `BTreeMap` of strings.
/// The map writes its entries in key order, so the text is a function of the
/// map alone.
pub uninterp spec fn string_map_json(map: Map<Seq<char>, Seq<char>>) -> Seq<char>;

pub open spec fn entries_view(entries: Seq<(String, String)>) -> Seq<(Seq<char>, Seq<char>)> {
    entries.map_values(|e: (String, String)| (e.0@, e.1@))
}

/// No two entries share a key.
pub open spec fn keys_distinct(entries: Seq<(Seq<char>, Seq<char>)>) -> bool {
    forall|i: int, j: int| 0 <= i < j < entries.len() ==> #[trigger] entries[i].0 != #[trigger] entries[j].0
}

/// Entries with distinct keys make the map that gives each key its entry's
/// value, and no other key.
proof fn lemma_distinct_map(entries: Seq<(Seq<char>, Seq<char>)>)
    requires
        keys_distinct(entries),
    ensures
        forall|i: int|
            0 <= i < entries.len() ==> entries_map(entries).contains_key(#[trigger] entries[i].0)
                && entries_map(entries)[entries[i].0] == entries[i].1,
        forall|key: Seq<char>|
            #[trigger] entries_map(entries).contains_key(key) ==> exists|i: int|
                0 <= i < entries.len() && #[trigger] entries[i].0 == key,
    decreases entries.len(),
{
    if entries.len() > 0 {
        let rest = entries.drop_last();
        assert(keys_distinct(rest)) by {
            assert forall|i: int, j: int| 0 <= i < j < rest.len() implies #[trigger] rest[i].0 != #[trigger] rest[j].0 by {
                assert(rest[i] == entries[i] && rest[j] == entries[j]);
            }
        }
        lemma_distinct_map(rest);
        let n = entries.len() - 1;
        assert forall|i: int| 0 <= i < entries.len() implies entries_map(entries).contains_key(#[trigger] entries[i].0)
            && entries_map(entries)[entries[i].0] == entries[i].1 by {
            if i < n {
                assert(rest[i] == entries[i]);
                assert(entries[i].0 != entries[n].0);
            }
        }
        assert forall|key: Seq<char>| #[trigger] entries_map(entries).contains_key(key) implies exists|i: int|
            0 <= i < entries.len() && #[trigger] entries[i].0 == key by {
            if key != entries[n].0 {
                assert(entries_map(rest).contains_key(key));
                let i = choose|i: int| 0 <= i < rest.len() && #[trigger] rest[i].0 == key;
                assert(entries[i] == rest[i]);
            }
        }
    }
}

/// The entries with each key once, holding the value the map of all of
/// them gives it (the later entry of a key wins), in the order keys first
/// appear.
pub fn distinct_entries(entries: &Vec<(String, String)>) -> (result: Vec<(String, String)>)
    ensures
        keys_distinct(entries_view(result@)),
        entries_map(entries_view(result@)) == entries_map(entries_view(entries@)),
{
    let mut out: Vec<(String, String)> = Vec::new();
    let mut i: usize = 0;
    while i < entries.len()
        invariant
            i <= entries@.len(),
            keys_distinct(entries_view(out@)),
            forall|j: int|
                0 <= j < out@.len() ==> entries_map(entries_view(entries@.subrange(0, i as int))).contains_key(
                    #[trigger] out@[j].0@,
                ) && entries_map(entries_view(entries@.subrange(0, i as int)))[out@[j].0@] == out@[j].1@,
            forall|key: Seq<char>|
                #[trigger] entries_map(entries_view(entries@.subrange(0, i as int))).contains_key(key) ==> exists|j: int|
                    0 <= j < out@.len() && #[trigger] out@[j].0@ == key,
        decreases entries@.len() - i,
    {
        let ghost before = entries_view(entries@.subrange(0, i as int));
        let ghost after = entries_view(entries@.subrange(0, i + 1));
        assert(after.drop_last() =~= before);
        assert(after.last() == (entries@[i as int].0@, entries@[i as int].1@));
        let key = crate::text::chars_of(entries[i].0.as_str());
        let mut p: usize = 0;
        let mut found = false;
        while p < out.len()
            invariant
                p <= out@.len(),
                !found ==> forall|q: int| 0 <= q < p ==> #[trigger] out@[q].0@ != key@,
                found ==> p < out@.len() && out@[p as int].0@ == key@,
            ensures
                !found ==> p == out@.len() && forall|q: int| 0 <= q < out@.len() ==> #[trigger] out@[q].0@ != key@,
                found ==> p < out@.len() && out@[p as int].0@ == key@,
            decreases out@.len() - p,
        {
            if crate::text::chars_equal(crate::text::chars_of(out[p].0.as_str()).as_slice(), key.as_slice()) {
                found = true;
                break;
            }
            p = p + 1;
        }
        let ghost old_out = out@;
        let entry = (entries[i].0.clone(), entries[i].1.clone());
        if found {
            out.set(p, entry);
        } else {
            out.push(entry);
        }
        proof {
            let k = entries@[i as int].0@;
            assert(key@ == k);
            assert forall|j: int| 0 <= j < old_out.len() implies #[trigger] out@[j].0@ == old_out[j].0@ by {
                if !(found && j == p) {
                    assert(out@[j] == old_out[j]);
                }
            }
            assert(keys_distinct(entries_view(out@))) by {
                assert forall|a: int, b: int| 0 <= a < b < entries_view(out@).len() implies #[trigger] entries_view(out@)[a].0
                    != #[trigger] entries_view(out@)[b].0 by {
                    assert(entries_view(out@)[a].0 == out@[a].0@);
                    assert(entries_view(out@)[b].0 == out@[b].0@);
                    if b < old_out.len() {
                        assert(entries_view(old_out)[a].0 == old_out[a].0@);
                        assert(entries_view(old_out)[b].0 == old_out[b].0@);
                        assert(entries_view(old_out)[a].0 != entries_view(old_out)[b].0);
                    } else {
                        assert(out@[b].0@ == k);
                        assert(old_out[a].0@ != k);
                    }
                }
            }
            assert forall|j: int| 0 <= j < out@.len() implies entries_map(after).contains_key(#[trigger] out@[j].0@)
                && entries_map(after)[out@[j].0@] == out@[j].1@ by {
                if j < old_out.len() && !(found && j == p) {
                    assert(out@[j] == old_out[j]);
                    assert(old_out[j].0@ != k) by {
                        if found {
                            assert(entries_view(old_out)[j].0 == old_out[j].0@);
                            assert(entries_view(old_out)[p as int].0 == old_out[p as int].0@);
                            if j < p {
                                assert(entries_view(old_out)[j].0 != entries_view(old_out)[p as int].0);
                            } else {
                                assert(entries_view(old_out)[p as int].0 != entries_view(old_out)[j].0);
                            }
                        }
                    }
                }
            }
            assert forall|key2: Seq<char>| #[trigger] entries_map(after).contains_key(key2) implies exists|j: int|
                0 <= j < out@.len() && #[trigger] out@[j].0@ == key2 by {
                if key2 == k {
                    if found {
                        assert(out@[p as int].0@ == key2);
                    } else {
                        assert(out@[old_out.len() as int].0@ == key2);
                    }
                } else {
                    assert(entries_map(before).contains_key(key2));
                    let j = choose|j: int| 0 <= j < old_out.len() && #[trigger] old_out[j].0@ == key2;
                    assert(out@[j] == old_out[j]) by {
                        if found && j == p {
                            assert(false);
                        }
                    }
                }
            }
        }
        i = i + 1;
    }
    proof {
        assert(entries@.subrange(0, i as int) =~= entries@);
        let v = entries_view(out@);
        lemma_distinct_map(v);
        assert(entries_map(v) =~= entries_map(entries_view(entries@))) by {
            assert forall|key: Seq<char>| entries_map(v).contains_key(key) == entries_map(entries_view(entries@)).contains_key(key) by {
                if entries_map(v).contains_key(key) {
                    let j = choose|j: int| 0 <= j < v.len() && #[trigger] v[j].0 == key;
                    assert(out@[j].0@ == key);
                }
                if entries_map(entries_view(entries@)).contains_key(key) {
                    let j = choose|j: int| 0 <= j < out@.len() && #[trigger] out@[j].0@ == key;
                    assert(v[j].0 == key);
                }
            }
            assert forall|key: Seq<char>| #[trigger] entries_map(v).contains_key(key) implies entries_map(v)[key]
                == entries_map(entries_view(entries@))[key] by {
                let j = choose|j: int| 0 <= j < v.len() && #[trigger] v[j].0 == key;
                assert(out@[j].0@ == key);
            }
        }
    }
    out
}

/// `serde_json::to_string` of the `BTreeMap` of the entries, whose keys are
/// distinct, so each entry becomes one member of the map. The crate fails
/// only for a value whose `Serialize` fails or for a map with keys that are
/// not strings, so a map of strings always serializes, and the empty
/// fallback is never taken.
#[verifier::external_body]
pub(crate) fn json_of_string_map(entries: &Vec<(String, String)>) -> (result: String)
    requires
        keys_distinct(entries_view(entries@)),
    ensures
        result@ == string_map_json(entries_map(entries_view(entries@))),
{
    let map: std::collections::BTreeMap<String, String> = entries.iter().cloned().collect();
    serde_json::to_string(&map).unwrap_or_default()
}

} // verus!
