//! JSON documents as HydroServer sends them, and the reads the client makes
//! of them: a member by name, the first of several names that is present, a
//! trimmed non-empty string, an item of a collection by its id.
use vstd::prelude::*;

use crate::text::{trim, trim_str};

verus! {

/// A JSON value. A number keeps the text it was written with; an object keeps
/// its members in order.
#[derive(Debug, PartialEq, Eq)]
pub enum JsonValue {
    Null,
    Bool(bool),
    Number(String),
    Str(String),
    Array(Vec<JsonValue>),
    Object(Vec<(String, JsonValue)>),
}

/// The first member named `key` among `entries`.
pub open spec fn first_entry(entries: Seq<(String, JsonValue)>, key: Seq<char>) -> Option<JsonValue>
    decreases entries.len(),
{
    if entries.len() == 0 {
        None
    } else if entries[0].0@ == key {
        Some(entries[0].1)
    } else {
        first_entry(entries.drop_first(), key)
    }
}

/// The member `key` of `v` (`Value::get` with a name): none unless `v` is an
/// object.
pub open spec fn member(v: JsonValue, key: Seq<char>) -> Option<JsonValue> {
    match v {
        JsonValue::Object(entries) => first_entry(entries@, key),
        _ => None,
    }
}

/// The member of `v` under the first of `keys` that it has.
pub open spec fn first_present(v: JsonValue, keys: Seq<Seq<char>>) -> Option<JsonValue>
    decreases keys.len(),
{
    if keys.len() == 0 {
        None
    } else {
        match member(v, keys[0]) {
            Some(x) => Some(x),
            None => first_present(v, keys.drop_first()),
        }
    }
}

/// The trimmed text of a string value, when it is not blank.
pub open spec fn text_of(v: Option<JsonValue>) -> Option<Seq<char>> {
    match v {
        Some(JsonValue::Str(s)) => if trim(s@).len() > 0 {
            Some(trim(s@))
        } else {
            None
        },
        _ => None,
    }
}

/// The string under the first of `keys` that `v` has, trimmed; none when that
/// member is not a string or is blank.
pub open spec fn string_at(v: JsonValue, keys: Seq<Seq<char>>) -> Option<Seq<char>> {
    text_of(first_present(v, keys))
}

/// The text, or nothing.
pub open spec fn or_empty(o: Option<Seq<char>>) -> Seq<char> {
    match o {
        Some(s) => s,
        None => Seq::empty(),
    }
}

/// The array items of `v`, if it is an array.
pub open spec fn array_items(v: Option<JsonValue>) -> Option<Seq<JsonValue>> {
    match v {
        Some(JsonValue::Array(items)) => Some(items@),
        _ => None,
    }
}

/// Whether `v` is an object with a member named `key`.
pub open spec fn has_member(v: Option<JsonValue>, key: Seq<char>) -> bool {
    match v {
        Some(JsonValue::Object(entries)) => first_entry(entries@, key) is Some,
        _ => false,
    }
}

/// The id of an item: its `id`, else its `uid`.
pub open spec fn item_id(item: JsonValue) -> Option<Seq<char>> {
    string_at(item, seq!["id"@, "uid"@])
}

/// The item of `items` with id `id`; when several share it, the last one
/// (as a map filled in order keeps it).
pub open spec fn item_with_id(items: Seq<JsonValue>, id: Seq<char>) -> Option<JsonValue>
    decreases items.len(),
{
    if items.len() == 0 {
        None
    } else if item_id(items.last()) == Some(id) {
        Some(items.last())
    } else {
        item_with_id(items.drop_last(), id)
    }
}

/// The string `key` of the item of `items` with id `id`, or nothing.
pub open spec fn field_of_item(items: Seq<JsonValue>, id: Option<Seq<char>>, key: Seq<char>) -> Seq<char> {
    match id {
        Some(i) => match item_with_id(items, i) {
            Some(item) => or_empty(string_at(item, seq![key])),
            None => Seq::empty(),
        },
        None => Seq::empty(),
    }
}

fn first_entry_exec<'a>(entries: &'a Vec<(String, JsonValue)>, key: &str) -> (res: Option<&'a JsonValue>)
    ensures
        match res {
            Some(r) => first_entry(entries@, key@) == Some(*r),
            None => first_entry(entries@, key@) is None,
        },
{
    let mut i: usize = 0;
    assert(entries@.subrange(0, entries@.len() as int) =~= entries@);
    while i < entries.len()
        invariant
            i <= entries@.len(),
            first_entry(entries@, key@) == first_entry(entries@.subrange(i as int, entries@.len() as int), key@),
        decreases entries@.len() - i,
    {
        let ghost rest = entries@.subrange(i as int, entries@.len() as int);
        assert(rest.drop_first() =~= entries@.subrange(i + 1, entries@.len() as int));
        assert(rest[0] == entries@[i as int]);
        if crate::text::str_eq(entries[i].0.as_str(), key) {
            return Some(&entries[i].1);
        }
        i = i + 1;
    }
    None
}

/// The member `key` of `v`.
pub fn get<'a>(v: &'a JsonValue, key: &str) -> (res: Option<&'a JsonValue>)
    ensures
        match res {
            Some(r) => member(*v, key@) == Some(*r),
            None => member(*v, key@) is None,
        },
{
    match v {
        JsonValue::Object(entries) => first_entry_exec(entries, key),
        _ => None,
    }
}

/// The member `key` of `v`, else its member `alt`.
pub fn get_either<'a>(v: &'a JsonValue, key: &str, alt: &str) -> (res: Option<&'a JsonValue>)
    ensures
        match res {
            Some(r) => first_present(*v, seq![key@, alt@]) == Some(*r),
            None => first_present(*v, seq![key@, alt@]) is None,
        },
{
    proof {
        reveal_with_fuel(first_present, 3);
        assert(seq![key@, alt@][0] == key@);
        assert(seq![key@, alt@].drop_first() =~= seq![alt@]);
        assert(seq![alt@][0] == alt@);
        assert(seq![alt@].drop_first() =~= Seq::<Seq<char>>::empty());
    }
    match get(v, key) {
        Some(x) => Some(x),
        None => get(v, alt),
    }
}

/// The trimmed text of a string value, when it is not blank.
pub fn text_value(v: Option<&JsonValue>) -> (res: Option<String>)
    ensures
        crate::models::opt_view(res) == text_of(match v {
            Some(x) => Some(*x),
            None => None,
        }),
{
    match v {
        Some(JsonValue::Str(s)) => {
            let t = trim_str(s.as_str());
            if t.as_str().is_empty() {
                None
            } else {
                Some(t)
            }
        },
        _ => None,
    }
}

/// The trimmed, non-blank string member `key` of `v`.
pub fn string_value(v: &JsonValue, key: &str) -> (res: Option<String>)
    ensures
        crate::models::opt_view(res) == string_at(*v, seq![key@]),
{
    proof {
        reveal_with_fuel(first_present, 2);
        assert(seq![key@][0] == key@);
        assert(seq![key@].drop_first() =~= Seq::<Seq<char>>::empty());
    }
    text_value(get(v, key))
}

/// The trimmed, non-blank string member `key` of `v`, else under `alt` when
/// `v` has no member `key` at all.
pub fn string_value_either(v: &JsonValue, key: &str, alt: &str) -> (res: Option<String>)
    ensures
        crate::models::opt_view(res) == string_at(*v, seq![key@, alt@]),
{
    text_value(get_either(v, key, alt))
}

/// The id of an item.
pub fn item_id_exec(item: &JsonValue) -> (res: Option<String>)
    ensures
        crate::models::opt_view(res) == item_id(*item),
{
    string_value_either(item, "id", "uid")
}

/// The items of `v`, if it is an array.
pub fn as_array(v: &JsonValue) -> (res: Option<&Vec<JsonValue>>)
    ensures
        match res {
            Some(items) => array_items(Some(*v)) == Some(items@),
            None => array_items(Some(*v)) is None,
        },
{
    match v {
        JsonValue::Array(items) => Some(items),
        _ => None,
    }
}

/// Whether `v` is an object with a member named `key`.
pub fn has_key(v: Option<&JsonValue>, key: &str) -> (res: bool)
    ensures
        res == has_member(match v {
            Some(x) => Some(*x),
            None => None,
        }, key@),
{
    match v {
        Some(JsonValue::Object(entries)) => first_entry_exec(entries, key).is_some(),
        _ => false,
    }
}

/// The item of `items` with id `id` (the last, when several share it).
pub fn find_item<'a>(items: &'a Vec<JsonValue>, id: &str) -> (res: Option<&'a JsonValue>)
    ensures
        match res {
            Some(r) => item_with_id(items@, id@) == Some(*r),
            None => item_with_id(items@, id@) is None,
        },
{
    let mut i = items.len();
    assert(items@.take(i as int) =~= items@);
    while i > 0
        invariant
            i <= items@.len(),
            item_with_id(items@, id@) == item_with_id(items@.take(i as int), id@),
        decreases i,
    {
        let ghost t = items@.take(i as int);
        assert(t.drop_last() =~= items@.take(i - 1));
        assert(t.last() == items@[i - 1]);
        let found = item_id_exec(&items[i - 1]);
        match found {
            Some(found_id) => {
                if crate::text::str_eq(found_id.as_str(), id) {
                    return Some(&items[i - 1]);
                }
            },
            None => {},
        }
        i = i - 1;
    }
    None
}

/// The string `key` of the item of `items` with id `id`, or an empty string.
pub fn item_field(items: &Vec<JsonValue>, id: Option<&str>, key: &str) -> (res: String)
    ensures
        res@ == field_of_item(items@, match id {
            Some(i) => Some(i@),
            None => None,
        }, key@),
{
    match id {
        Some(i) => match find_item(items, i) {
            Some(item) => match string_value(item, key) {
                Some(s) => s,
                None => String::new(),
            },
            None => String::new(),
        },
        None => String::new(),
    }
}

} // verus!
