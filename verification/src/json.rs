//! JSON values as plain data, and the way in and out of `serde_json`.

use serde_json::{Number, Value};
use vstd::prelude::*;

verus! {

/// `serde_json::Number`, which is carried through unread.
#[verifier::external_type_specification]
#[verifier::external_body]
pub struct ExNumber(serde_json::Number);

/// `serde_json::Value`, which is taken apart and put together one level at a time.
#[verifier::external_type_specification]
#[verifier::external_body]
pub struct ExValue(serde_json::Value);

/// `serde_json::Error`, which is carried through unread.
#[verifier::external_type_specification]
#[verifier::external_body]
pub struct ExJsonError(serde_json::Error);

/// A JSON value: what a text stands for once its layout is left out. An object gives
/// each of its keys one value.
pub enum Json {
    Null,
    Bool(bool),
    Number(Number),
    Text(Seq<char>),
    Array(Seq<Json>),
    Object(Map<Seq<char>, Json>),
}

/// The map that a list of entries makes: of two entries with one key the later counts.
pub open spec fn last_wins(entries: Seq<(Seq<char>, Json)>) -> Map<Seq<char>, Json>
    decreases entries.len(),
{
    if entries.len() == 0 {
        Map::empty()
    } else {
        last_wins(entries.drop_last()).insert(entries.last().0, entries.last().1)
    }
}

/// No two entries have the same key.
pub open spec fn distinct_keys(entries: Seq<(Seq<char>, Json)>) -> bool {
    forall|i: int, j: int|
        0 <= i < j < entries.len() ==> (#[trigger] entries[i]).0 != (#[trigger] entries[j]).0
}

/// A list of entries makes a map with finitely many keys.
pub proof fn last_wins_is_finite(entries: Seq<(Seq<char>, Json)>)
    ensures
        last_wins(entries).dom().finite(),
    decreases entries.len(),
{
    if entries.len() > 0 {
        last_wins_is_finite(entries.drop_last());
    }
}

/// Where the keys differ, the map gives every entry back.
pub proof fn distinct_entries_are_kept(entries: Seq<(Seq<char>, Json)>, i: int)
    requires
        distinct_keys(entries),
        0 <= i < entries.len(),
    ensures
        last_wins(entries).contains_key(entries[i].0),
        last_wins(entries)[entries[i].0] == entries[i].1,
    decreases entries.len(),
{
    let n = entries.len() - 1;
    if i < n {
        assert(entries.drop_last()[i] == entries[i]);
        assert(distinct_keys(entries.drop_last())) by {
            assert forall|a: int, b: int| 0 <= a < b < n implies (#[trigger] entries.drop_last()[a]).0
                != (#[trigger] entries.drop_last()[b]).0 by {
                assert(entries[a].0 != entries[b].0);
            }
        }
        distinct_entries_are_kept(entries.drop_last(), i);
        assert(entries[i].0 != entries[n].0);
    }
}

/// Of the entries with one key the last one counts, and there is no key that no entry
/// has.
pub proof fn the_last_entry_counts(entries: Seq<(Seq<char>, Json)>, i: int)
    requires
        0 <= i < entries.len(),
        forall|j: int| i < j < entries.len() ==> (#[trigger] entries[j]).0 != entries[i].0,
    ensures
        last_wins(entries).contains_key(entries[i].0),
        last_wins(entries)[entries[i].0] == entries[i].1,
        forall|key: Seq<char>| #[trigger]
            last_wins(entries).contains_key(key) ==> exists|k: int|
                0 <= k < entries.len() && (#[trigger] entries[k]).0 == key,
    decreases entries.len(),
{
    let before = entries.drop_last();
    if i < before.len() {
        assert(before[i] == entries[i]);
        assert forall|j: int| i < j < before.len() implies (#[trigger] before[j]).0
            != before[i].0 by {
            assert(before[j] == entries[j]);
        }
        the_last_entry_counts(before, i);
        assert(entries[entries.len() - 1] == entries.last());
    }
    assert forall|key: Seq<char>| #[trigger] last_wins(entries).contains_key(key) implies exists|
        k: int,
    |
        0 <= k < entries.len() && (#[trigger] entries[k]).0 == key by {
        let k = key_comes_from(entries, key);
        assert(entries[k].0 == key);
    }
}

/// A JSON value as plain data.
pub enum JsonValue {
    Null,
    Bool(bool),
    Number(Number),
    Text(String),
    Array(Vec<JsonValue>),
    Object(Vec<(String, JsonValue)>),
}

impl JsonValue {
    /// What the value stands for.
    pub open spec fn tree(self) -> Json
        decreases self,
    {
        match self {
            JsonValue::Null => Json::Null,
            JsonValue::Bool(b) => Json::Bool(b),
            JsonValue::Number(n) => Json::Number(n),
            JsonValue::Text(s) => Json::Text(s@),
            JsonValue::Array(items) => Json::Array(trees(items@)),
            JsonValue::Object(entries) => Json::Object(last_wins(pairs(entries@))),
        }
    }
}

/// What the items of an array stand for.
pub open spec fn trees(items: Seq<JsonValue>) -> Seq<Json>
    decreases items,
{
    Seq::new(
        items.len(),
        |i: int|
            if 0 <= i < items.len() {
                items[i].tree()
            } else {
                Json::Null
            },
    )
}

/// What the entries of an object stand for.
pub open spec fn pairs(entries: Seq<(String, JsonValue)>) -> Seq<(Seq<char>, Json)>
    decreases entries,
{
    Seq::new(
        entries.len(),
        |i: int|
            if 0 <= i < entries.len() {
                (entries[i].0@, entries[i].1.tree())
            } else {
                (Seq::<char>::empty(), Json::Null)
            },
    )
}

/// Plain values stand for themselves, and lists for their items in the same order.
pub proof fn plain_data_stands_for_itself(
    v: JsonValue,
    items: Seq<JsonValue>,
    entries: Seq<(String, JsonValue)>,
)
    ensures
        v is Null ==> v.tree() == Json::Null,
        v matches JsonValue::Bool(b) ==> v.tree() == Json::Bool(b),
        v matches JsonValue::Number(n) ==> v.tree() == Json::Number(n),
        v matches JsonValue::Text(s) ==> v.tree() == Json::Text(s@),
        v matches JsonValue::Array(a) ==> v.tree() == Json::Array(trees(a@)),
        v matches JsonValue::Object(o) ==> v.tree() == Json::Object(last_wins(pairs(o@))),
        trees(items).len() == items.len(),
        forall|i: int| 0 <= i < items.len() ==> #[trigger] trees(items)[i] == items[i].tree(),
        pairs(entries).len() == entries.len(),
        forall|i: int|
            0 <= i < entries.len() ==> #[trigger] pairs(entries)[i] == (
                entries[i].0@,
                entries[i].1.tree(),
            ),
{
}

/// What a `serde_json::Value` holds.
pub uninterp spec fn value_tree(v: Value) -> Json;

/// One level of a `serde_json::Value`.
pub enum JsonNode {
    Null,
    Bool(bool),
    Number(Number),
    Text(String),
    Array(Vec<Value>),
    Object(Vec<(String, Value)>),
}

/// What the items of an array hold.
pub open spec fn item_trees(items: Seq<Value>) -> Seq<Json> {
    items.map_values(|v: Value| value_tree(v))
}

/// What the entries of an object hold.
pub open spec fn entry_trees(entries: Seq<(String, Value)>) -> Seq<(Seq<char>, Json)> {
    entries.map_values(|e: (String, Value)| (e.0@, value_tree(e.1)))
}

impl JsonNode {
    /// What the level and everything below it stand for.
    pub open spec fn tree(self) -> Json {
        match self {
            JsonNode::Null => Json::Null,
            JsonNode::Bool(b) => Json::Bool(b),
            JsonNode::Number(n) => Json::Number(n),
            JsonNode::Text(s) => Json::Text(s@),
            JsonNode::Array(items) => Json::Array(item_trees(items@)),
            JsonNode::Object(entries) => Json::Object(last_wins(entry_trees(entries@))),
        }
    }
}

/// Takes the outermost level of a `serde_json::Value` off, variant by variant. An
/// object gives out its entries in the order of `serde_json::Map`, each key once.
#[verifier::external_body]
fn take_apart(v: Value) -> (r: JsonNode)
    ensures
        r.tree() == value_tree(v),
        r matches JsonNode::Object(entries) ==> distinct_keys(entry_trees(entries@)),
{
    match v {
        Value::Null => JsonNode::Null,
        Value::Bool(b) => JsonNode::Bool(b),
        Value::Number(n) => JsonNode::Number(n),
        Value::String(s) => JsonNode::Text(s),
        Value::Array(items) => JsonNode::Array(items),
        Value::Object(map) => JsonNode::Object(map.into_iter().collect()),
    }
}

/// Makes a `serde_json::Value` of one level, variant by variant. The entries of an
/// object are collected into a `serde_json::Map`, in which of two with one key the later
/// stays.
#[verifier::external_body]
fn put_together(node: JsonNode) -> (r: Value)
    ensures
        value_tree(r) == node.tree(),
{
    match node {
        JsonNode::Null => Value::Null,
        JsonNode::Bool(b) => Value::Bool(b),
        JsonNode::Number(n) => Value::Number(n),
        JsonNode::Text(s) => Value::String(s),
        JsonNode::Array(items) => Value::Array(items),
        JsonNode::Object(entries) => Value::Object(entries.into_iter().collect()),
    }
}

impl JsonValue {
    /// The value as plain data.
    pub fn from_value(v: Value) -> (r: JsonValue)
        ensures
            r.tree() == value_tree(v),
        decreases value_tree(v),
    {
        let ghost whole = value_tree(v);
        match take_apart(v) {
            JsonNode::Null => JsonValue::Null,
            JsonNode::Bool(b) => JsonValue::Bool(b),
            JsonNode::Number(n) => JsonValue::Number(n),
            JsonNode::Text(s) => JsonValue::Text(s),
            JsonNode::Array(items) => {
                let ghost held = item_trees(items@);
                let mut out: Vec<JsonValue> = Vec::new();
                for item in it: items
                    invariant
                        it.seq() == items@,
                        held == item_trees(items@),
                        whole == value_tree(v),
                        whole == Json::Array(held),
                        out@.len() == it.index(),
                        forall|j: int| 0 <= j < it.index() ==> (#[trigger] out@[j]).tree() == held[j],
                {
                    assert(value_tree(item) == held[it.index()]);
                    assert(decreases_to!(whole => whole->Array_0));
                    assert(decreases_to!(held => held[it.index()]));
                    out.push(JsonValue::from_value(item));
                }
                assert(trees(out@) =~= held);
                JsonValue::Array(out)
            },
            JsonNode::Object(entries) => {
                let ghost held = entry_trees(entries@);
                let mut out: Vec<(String, JsonValue)> = Vec::new();
                for entry in it: entries
                    invariant
                        it.seq() == entries@,
                        held == entry_trees(entries@),
                        distinct_keys(held),
                        whole == value_tree(v),
                        whole == Json::Object(last_wins(held)),
                        out@.len() == it.index(),
                        forall|j: int|
                            0 <= j < it.index() ==> (#[trigger] out@[j]).0@ == held[j].0
                                && out@[j].1.tree() == held[j].1,
                {
                    proof {
                        let m = last_wins(held);
                        last_wins_is_finite(held);
                        distinct_entries_are_kept(held, it.index());
                        assert(decreases_to!(whole => whole->Object_0));
                        assert(decreases_to!(m => m[held[it.index()].0]));
                    }
                    let (key, item) = entry;
                    out.push((key, JsonValue::from_value(item)));
                }
                assert(pairs(out@) =~= held);
                JsonValue::Object(out)
            },
        }
    }
}

impl JsonValue {
    /// The value as `serde_json` holds it.
    pub fn into_value(self) -> (r: Value)
        ensures
            value_tree(r) == self.tree(),
        decreases self,
    {
        match self {
            JsonValue::Null => put_together(JsonNode::Null),
            JsonValue::Bool(b) => put_together(JsonNode::Bool(b)),
            JsonValue::Number(n) => put_together(JsonNode::Number(n)),
            JsonValue::Text(s) => put_together(JsonNode::Text(s)),
            JsonValue::Array(items) => {
                let ghost held = trees(items@);
                let mut out: Vec<Value> = Vec::new();
                for item in it: items
                    invariant
                        it.seq() == items@,
                        held == trees(items@),
                        self == JsonValue::Array(items),
                        out@.len() == it.index(),
                        forall|j: int|
                            0 <= j < it.index() ==> value_tree(#[trigger] out@[j]) == held[j],
                {
                    assert(decreases_to!(self => self->Array_0));
                    assert(decreases_to!(items@ => items@[it.index()]));
                    out.push(item.into_value());
                }
                assert(item_trees(out@) =~= held);
                put_together(JsonNode::Array(out))
            },
            JsonValue::Object(entries) => {
                let ghost held = pairs(entries@);
                let mut out: Vec<(String, Value)> = Vec::new();
                for entry in it: entries
                    invariant
                        it.seq() == entries@,
                        held == pairs(entries@),
                        self == JsonValue::Object(entries),
                        out@.len() == it.index(),
                        forall|j: int|
                            0 <= j < it.index() ==> (#[trigger] out@[j]).0@ == held[j].0
                                && value_tree(out@[j].1) == held[j].1,
                {
                    assert(decreases_to!(self => self->Object_0));
                    assert(decreases_to!(entries@ => entries@[it.index()]));
                    let (key, item) = entry;
                    out.push((key, item.into_value()));
                }
                assert(entry_trees(out@) =~= held);
                put_together(JsonNode::Object(out))
            },
        }
    }
}

/// Arrays and objects stand inside each other at most `levels` deep.
pub open spec fn nested_at_most(t: Json, levels: nat) -> bool
    decreases t,
{
    match t {
        Json::Array(items) => levels > 0 && forall|i: int|
            0 <= i < items.len() ==> nested_at_most(#[trigger] items[i], (levels - 1) as nat),
        Json::Object(m) => levels > 0 && forall|k: Seq<char>|
            #![trigger m[k]]
            m.contains_key(k) ==> nested_at_most(m[k], (levels - 1) as nat),
        _ => true,
    }
}

/// Whether a number is held as one with a fraction or an exponent.
pub uninterp spec fn is_float(n: Number) -> bool;

/// `Number::is_f64`, whose result has the name [`is_float`].
#[verifier::external_body]
fn number_is_float(n: &Number) -> (r: bool)
    ensures
        r == is_float(*n),
{
    n.is_f64()
}

/// No number in the value is one with a fraction or an exponent.
pub open spec fn float_free(t: Json) -> bool
    decreases t,
{
    match t {
        Json::Number(n) => !is_float(n),
        Json::Array(items) => forall|i: int|
            0 <= i < items.len() ==> float_free(#[trigger] items[i]),
        Json::Object(m) => forall|k: Seq<char>|
            #![trigger m[k]]
            m.contains_key(k) ==> float_free(m[k]),
        _ => true,
    }
}

/// A value is free of such numbers where each item of an array, and the value of each
/// key of an object, is; and a number where it is not such a number itself.
pub proof fn every_part_is_free_of_floats(t: Json)
    ensures
        t matches Json::Number(n) ==> (float_free(t) <==> !is_float(n)),
        t matches Json::Array(items) ==> (float_free(t) <==> forall|i: int|
            0 <= i < items.len() ==> float_free(#[trigger] items[i])),
        t matches Json::Object(m) ==> (float_free(t) <==> forall|k: Seq<char>|
            m.contains_key(k) ==> float_free(#[trigger] m[k])),
        t is Null || t is Bool || t is Text ==> float_free(t),
{
    match t {
        Json::Array(items) => {
            assert(t->Array_0 == items);
        },
        Json::Object(m) => {
            assert(t->Object_0 == m);
        },
        _ => {},
    }
}

/// A list of entries whose keys differ is free of such numbers where its map is.
proof fn float_free_entries(entries: Seq<(Seq<char>, Json)>)
    requires
        distinct_keys(entries),
    ensures
        float_free(Json::Object(last_wins(entries))) <==> forall|i: int|
            0 <= i < entries.len() ==> float_free((#[trigger] entries[i]).1),
{
    let m = last_wins(entries);
    assert forall|i: int| 0 <= i < entries.len() implies m.contains_key(entries[i].0)
        && m[entries[i].0] == (#[trigger] entries[i]).1 by {
        distinct_entries_are_kept(entries, i);
    }
    if forall|i: int| 0 <= i < entries.len() ==> float_free((#[trigger] entries[i]).1) {
        assert forall|k: Seq<char>|
            #![trigger m[k]]
            m.contains_key(k) implies float_free(m[k]) by {
            let i = key_comes_from(entries, k);
            assert(m[k] == entries[i].1);
        }
    }
    let whole = Json::Object(m);
    if float_free(whole) {
        assert(whole->Object_0 == m);
        assert forall|i: int| 0 <= i < entries.len() implies float_free(
            (#[trigger] entries[i]).1,
        ) by {
            distinct_entries_are_kept(entries, i);
            assert(m.contains_key(entries[i].0));
            assert(float_free(m[entries[i].0]));
        }
    }
}

/// Every key of the map is the key of an entry.
proof fn key_comes_from(entries: Seq<(Seq<char>, Json)>, key: Seq<char>) -> (i: int)
    requires
        last_wins(entries).contains_key(key),
    ensures
        0 <= i < entries.len(),
        entries[i].0 == key,
    decreases entries.len(),
{
    if entries.last().0 == key {
        entries.len() - 1
    } else {
        let i = key_comes_from(entries.drop_last(), key);
        assert(entries[i] == entries.drop_last()[i]);
        i
    }
}

/// Whether a number with a fraction or an exponent stands anywhere in the value. What
/// holds none reads the same once it is written and read again.
pub fn holds_float(v: Value) -> (r: bool)
    ensures
        r == !float_free(value_tree(v)),
    decreases value_tree(v),
{
    let ghost whole = value_tree(v);
    match take_apart(v) {
        JsonNode::Number(n) => number_is_float(&n),
        JsonNode::Array(items) => {
            let ghost held = item_trees(items@);
            let mut found = false;
            for item in it: items
                invariant
                    it.seq() == items@,
                    held == item_trees(items@),
                    whole == value_tree(v),
                    whole == Json::Array(held),
                    found == exists|j: int| 0 <= j < it.index() && !float_free(#[trigger] held[j]),
            {
                assert(value_tree(item) == held[it.index()]);
                assert(decreases_to!(whole => whole->Array_0));
                assert(decreases_to!(held => held[it.index()]));
                if holds_float(item) {
                    found = true;
                }
            }
            proof {
                if found {
                    let j = choose|j: int| 0 <= j < held.len() && !float_free(#[trigger] held[j]);
                    assert(!float_free(whole->Array_0[j]));
                }
            }
            found
        },
        JsonNode::Object(entries) => {
            let ghost held = entry_trees(entries@);
            let mut found = false;
            for entry in it: entries
                invariant
                    it.seq() == entries@,
                    held == entry_trees(entries@),
                    distinct_keys(held),
                    whole == value_tree(v),
                    whole == Json::Object(last_wins(held)),
                    found == exists|j: int|
                        0 <= j < it.index() && !float_free((#[trigger] held[j]).1),
            {
                proof {
                    let m = last_wins(held);
                    last_wins_is_finite(held);
                    distinct_entries_are_kept(held, it.index());
                    assert(held[it.index()].1 == value_tree(entry.1));
                    assert(decreases_to!(whole => whole->Object_0));
                    assert(decreases_to!(m => m[held[it.index()].0]));
                }
                if holds_float(entry.1) {
                    found = true;
                }
            }
            proof {
                float_free_entries(held);
                assert(found == !float_free(Json::Object(last_wins(held))));
            }
            found
        },
        _ => false,
    }
}

/// The values are equal but for what their numbers with a fraction or an exponent are.
pub open spec fn same_but_floats(a: Json, b: Json) -> bool
    decreases a,
{
    match a {
        Json::Number(n) => if is_float(n) {
            b is Number
        } else {
            b == a
        },
        Json::Array(items) => b is Array && b->Array_0.len() == items.len() && forall|i: int|
            0 <= i < items.len() ==> same_but_floats(#[trigger] items[i], b->Array_0[i]),
        Json::Object(m) => b is Object && b->Object_0.dom() == m.dom() && forall|k: Seq<char>|
            #![trigger m[k]]
            m.contains_key(k) ==> same_but_floats(m[k], b->Object_0[k]),
        _ => a == b,
    }
}

/// The value that `serde_json` reads out of a text, if it reads one.
pub uninterp spec fn parsed_json(text: Seq<char>) -> Option<Json>;

/// The text that `serde_json` writes for a value.
pub uninterp spec fn json_text(t: Json) -> Seq<char>;

/// How deep arrays and objects may stand inside each other for a text to be read.
pub const NESTING_LIMIT: u64 = 127;

/// Reads a JSON text with `serde_json::from_str`. What comes out has the name
/// [`parsed_json`]; it is never nested deeper than the reader's limit.
#[verifier::external_body]
pub(crate) fn parse_value(text: &str) -> (r: Result<Value, serde_json::Error>)
    ensures
        r matches Ok(v) ==> parsed_json(text@) == Some(value_tree(v)) && nested_at_most(
            value_tree(v),
            NESTING_LIMIT as nat,
        ),
        r is Err ==> parsed_json(text@) is None,
{
    serde_json::from_str::<Value>(text)
}

/// Writes a value with `serde_json::to_string`, which gives out the entries of an
/// object in the order of their keys and does not fail on a `Value`. The text has the
/// name [`json_text`]. Where it is read back at all, the same value comes out, but that
/// a number with a fraction or an exponent can come back changed in its last digits;
/// without such numbers, and within the reader's nesting limit, it is read back as it
/// was.
#[verifier::external_body]
pub(crate) fn value_text(v: &Value) -> (r: Result<String, serde_json::Error>)
    ensures
        r is Ok,
        r->Ok_0@ == json_text(value_tree(*v)),
        parsed_json(r->Ok_0@) matches Some(t) ==> same_but_floats(value_tree(*v), t),
        float_free(value_tree(*v)) && nested_at_most(value_tree(*v), NESTING_LIMIT as nat)
            ==> parsed_json(r->Ok_0@) == Some(value_tree(*v)),
{
    serde_json::to_string(v)
}

} // verus!
