//! Reading JSON texts, with the parser of the `serde_json` crate.

use crate::json::{fields_tree, items_tree, Json, JsonNumber, JsonTree};
use std::collections::HashMap;
use vstd::prelude::*;

verus! {

/// A JSON value of the `serde_json` crate.
#[verifier::external_type_specification]
#[verifier::external_body]
pub struct ExValue(serde_json::Value);

/// A JSON number of the `serde_json` crate.
#[verifier::external_type_specification]
#[verifier::external_body]
pub struct ExNumber(serde_json::Number);

/// What a text says, or the message of the parser if it is no JSON text.
pub uninterp spec fn parsed_json(text: Seq<char>) -> Result<JsonTree, Seq<char>>;

/// The fields of the object that a text is, or the message of the parser if it is no JSON text of
/// an object.
pub uninterp spec fn parsed_object(text: Seq<char>) -> Result<
    Map<Seq<char>, JsonTree>,
    Seq<char>,
>;

/// What a value of the `serde_json` crate holds.
pub uninterp spec fn value_tree(value: serde_json::Value) -> JsonTree;

/// What a number of the `serde_json` crate holds.
pub uninterp spec fn number_value(number: serde_json::Number) -> JsonNumber;

/// `serde_json::from_str`: a value that holds what the text says, or the message of the error.
#[verifier::external_body]
fn parse_value(text: &str) -> (value: Result<serde_json::Value, String>)
    ensures
        match value {
            Ok(value) => parsed_json(text@) == Ok::<JsonTree, Seq<char>>(value_tree(value)),
            Err(message) => parsed_json(text@) == Err::<JsonTree, Seq<char>>(message@),
        },
{
    serde_json::from_str(text).map_err(|e: serde_json::Error| e.to_string())
}

/// A value with its outermost layer taken off.
enum OpenValue {
    Null,
    Bool(bool),
    Number(serde_json::Number),
    Text(String),
    Array(Vec<serde_json::Value>),
    Object(Vec<(String, serde_json::Value)>),
}

/// What the items of an array hold.
spec fn values_tree(items: Seq<serde_json::Value>) -> Seq<JsonTree> {
    items.map_values(|item: serde_json::Value| value_tree(item))
}

/// What the fields of an object hold.
spec fn entries_tree(entries: Seq<(String, serde_json::Value)>) -> Map<Seq<char>, JsonTree>
    decreases entries.len(),
{
    if entries.len() == 0 {
        Map::empty()
    } else {
        entries_tree(entries.drop_last()).insert(entries.last().0@, value_tree(entries.last().1))
    }
}

/// No two fields have the same name.
spec fn names_differ(entries: Seq<(String, serde_json::Value)>) -> bool {
    forall|i: int, j: int|
        0 <= i < j < entries.len() ==> (#[trigger] entries[i]).0@ != (#[trigger] entries[j]).0@
}

/// `serde_json::from_str`, into a map: the fields of the object that the text is, or the message
/// of the error. The fields are listed in the order in which the map is walked, no name twice.
#[verifier::external_body]
fn parse_entries(text: &str) -> (entries: Result<Vec<(String, serde_json::Value)>, String>)
    ensures
        match entries {
            Ok(entries) => names_differ(entries@) && parsed_object(text@) == Ok::<
                Map<Seq<char>, JsonTree>,
                Seq<char>,
            >(entries_tree(entries@)),
            Err(message) => parsed_object(text@) == Err::<Map<Seq<char>, JsonTree>, Seq<char>>(
                message@,
            ),
        },
{
    serde_json::from_str::<HashMap<String, serde_json::Value>>(text)
        .map(|map| map.into_iter().collect())
        .map_err(|e: serde_json::Error| e.to_string())
}

impl OpenValue {
    spec fn tree(self) -> JsonTree {
        match self {
            OpenValue::Null => JsonTree::Null,
            OpenValue::Bool(b) => JsonTree::Bool(b),
            OpenValue::Number(n) => JsonTree::Number(number_value(n)),
            OpenValue::Text(text) => JsonTree::Text(text@),
            OpenValue::Array(items) => JsonTree::Array(values_tree(items@)),
            OpenValue::Object(entries) => JsonTree::Object(entries_tree(entries@)),
        }
    }
}

/// The variants of `serde_json::Value`. An object is a map: its fields are listed in the order in
/// which the map is walked, no name twice.
#[verifier::external_body]
fn open_value(value: serde_json::Value) -> (open: OpenValue)
    ensures
        open.tree() == value_tree(value),
        open matches OpenValue::Object(entries) ==> names_differ(entries@),
{
    match value {
        serde_json::Value::Null => OpenValue::Null,
        serde_json::Value::Bool(b) => OpenValue::Bool(b),
        serde_json::Value::Number(n) => OpenValue::Number(n),
        serde_json::Value::String(text) => OpenValue::Text(text),
        serde_json::Value::Array(items) => OpenValue::Array(items),
        serde_json::Value::Object(map) => OpenValue::Object(map.into_iter().collect()),
    }
}

/// `Number::as_u64`: the number if it is an integer that is not negative.
#[verifier::external_body]
fn number_as_u64(number: &serde_json::Number) -> (n: Option<u64>)
    ensures
        n == match number_value(*number) {
            JsonNumber::PosInt(n) => Some(n),
            _ => None,
        },
{
    number.as_u64()
}

/// `Number::as_i64`: the number if it is an integer that fits.
#[verifier::external_body]
fn number_as_i64(number: &serde_json::Number) -> (n: Option<i64>)
    ensures
        n == match number_value(*number) {
            JsonNumber::PosInt(n) if n <= i64::MAX => Some(n as i64),
            JsonNumber::NegInt(n) => Some(n),
            _ => None,
        },
{
    number.as_i64()
}

/// `Number::as_f64`: the bits of the number if it is a floating point number. Every number can be
/// had as one; what the bits are for an integer is left open.
#[verifier::external_body]
fn number_as_bits(number: &serde_json::Number) -> (bits: Option<u64>)
    ensures
        bits is Some,
        number_value(*number) matches JsonNumber::Float(n) ==> bits == Some(n),
{
    number.as_f64().map(|x| x.to_bits())
}

fn from_number(number: &serde_json::Number) -> (n: JsonNumber)
    ensures
        n == number_value(*number),
{
    if let Some(n) = number_as_u64(number) {
        JsonNumber::PosInt(n)
    } else if let Some(n) = number_as_i64(number) {
        JsonNumber::NegInt(n)
    } else {
        JsonNumber::Float(number_as_bits(number).unwrap())
    }
}

/// A field is found under its name if no other has that name.
proof fn lemma_entry_is_found(entries: Seq<(String, serde_json::Value)>, index: int)
    requires
        names_differ(entries),
        0 <= index < entries.len(),
    ensures
        entries_tree(entries).dom().finite(),
        entries_tree(entries).contains_key(entries[index].0@),
        entries_tree(entries)[entries[index].0@] == value_tree(entries[index].1),
    decreases entries.len(),
{
    let before = entries.drop_last();
    if before.len() > 0 {
        let i = if index < before.len() { index } else { 0 };
        lemma_entry_is_found(before, i);
    } else {
        assert(entries_tree(before).dom().finite());
    }
    if index < before.len() {
        assert(entries[index] == before[index]);
        assert(entries[index].0@ != entries[entries.len() - 1].0@);
    }
}

fn from_value(value: serde_json::Value) -> (json: Json)
    ensures
        json.tree() == value_tree(value),
    decreases value_tree(value),
{
    match open_value(value) {
        OpenValue::Null => Json::Null,
        OpenValue::Bool(b) => Json::Bool(b),
        OpenValue::Number(n) => Json::Number(from_number(&n)),
        OpenValue::Text(text) => Json::Text(text),
        OpenValue::Array(items) => {
            let ghost all = items@;
            let mut result: Vec<Json> = Vec::new();
            for item in iter: items
                invariant
                    iter.seq() == all,
                    value_tree(value) == JsonTree::Array(values_tree(all)),
                    items_tree(result@) == values_tree(all).take(iter.index()),
            {
                proof {
                    let i = iter.index();
                    let tree = value_tree(value);
                    assert(values_tree(all)[i] == value_tree(item));
                    assert(decreases_to!(tree => tree->Array_0));
                    assert(decreases_to!(tree->Array_0 => tree->Array_0[i]));
                }
                let ghost before = result@;
                result.push(from_value(item));
                assert(items_tree(result@) =~= items_tree(before).push(value_tree(item)));
            }
            assert(values_tree(all).take(all.len() as int) =~= values_tree(all));
            Json::Array(result)
        },
        OpenValue::Object(entries) => {
            let ghost all = entries@;
            let mut result: Vec<(String, Json)> = Vec::new();
            assert(all.take(0) =~= Seq::empty());
            for entry in iter: entries
                invariant
                    iter.seq() == all,
                    names_differ(all),
                    value_tree(value) == JsonTree::Object(entries_tree(all)),
                    fields_tree(result@) == entries_tree(all.take(iter.index())),
            {
                proof {
                    let i = iter.index();
                    let tree = value_tree(value);
                    lemma_entry_is_found(all, i);
                    assert(decreases_to!(tree => tree->Object_0));
                    assert(decreases_to!(tree->Object_0 => tree->Object_0[entry.0@]));
                    assert(all.take(i + 1).drop_last() =~= all.take(i));
                }
                let ghost before = result@;
                let (name, item) = entry;
                result.push((name, from_value(item)));
                assert(result@.drop_last() =~= before);
            }
            assert(all.take(all.len() as int) =~= all);
            Json::Object(result)
        },
    }
}

impl Json {
    /// Reads a JSON text.
    pub fn parse(text: &str) -> (json: Result<Json, String>)
        ensures
            match json {
                Ok(json) => parsed_json(text@) == Ok::<JsonTree, Seq<char>>(json.tree()),
                Err(message) => parsed_json(text@) == Err::<JsonTree, Seq<char>>(message@),
            },
    {
        match parse_value(text) {
            Ok(value) => Ok(from_value(value)),
            Err(message) => Err(message),
        }
    }

    /// Reads a JSON text of an object.
    pub fn parse_object(text: &str) -> (json: Result<Json, String>)
        ensures
            match json {
                Ok(json) => json.tree() is Object && parsed_object(text@) == Ok::<
                    Map<Seq<char>, JsonTree>,
                    Seq<char>,
                >(json.tree()->Object_0),
                Err(message) => parsed_object(text@) == Err::<Map<Seq<char>, JsonTree>, Seq<char>>(
                    message@,
                ),
            },
    {
        let entries = match parse_entries(text) {
            Ok(entries) => entries,
            Err(message) => {
                return Err(message);
            },
        };
        let ghost all = entries@;
        let mut result: Vec<(String, Json)> = Vec::new();
        assert(all.take(0) =~= Seq::empty());
        for entry in iter: entries
            invariant
                iter.seq() == all,
                fields_tree(result@) == entries_tree(all.take(iter.index())),
        {
            proof {
                let i = iter.index();
                assert(all.take(i + 1).drop_last() =~= all.take(i));
            }
            let ghost before = result@;
            let (name, item) = entry;
            result.push((name, from_value(item)));
            assert(result@.drop_last() =~= before);
        }
        assert(all.take(all.len() as int) =~= all);
        Ok(Json::Object(result))
    }
}

} // verus!
