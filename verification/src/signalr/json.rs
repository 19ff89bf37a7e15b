//! JSON documents: the tree that text frames are parsed into, and the parser
//! that `serde_json` provides for it.

use crate::signalr::entries::{
    find_member, lemma_member_index_by_names, member_index, names_of,
};
use serde_json::Value;
use vstd::prelude::*;

verus! {

/// A JSON number, told apart the way `serde_json` stores it: an integer from
/// zero up, an integer below zero, or a float. The float is held as the bit
/// pattern of its IEEE 754 binary64 form.
#[derive(Debug, Clone, Copy, PartialEq, Eq, Structural)]
pub enum JsonNumber {
    PosInt(u64),
    NegInt(i64),
    Float(u64),
}

/// A JSON document. An object is the list of its members. Where a name occurs
/// more than once the last member counts, see [`JsonValue::get`]; a document
/// that comes from [`JsonValue::parse`] has every name once.
#[derive(Debug, PartialEq)]
pub enum JsonValue {
    Null,
    Bool(bool),
    Number(JsonNumber),
    String(String),
    Array(Vec<JsonValue>),
    Object(Vec<(String, JsonValue)>),
}

/// The mathematical form of a [`JsonValue`].
pub enum JsonView {
    Null,
    Bool(bool),
    Number(JsonNumber),
    String(Seq<char>),
    Array(Seq<JsonView>),
    Object(Seq<(Seq<char>, JsonView)>),
}

impl JsonNumber {
    /// Whether the number is a float.
    pub open spec fn spec_is_f64(self) -> bool {
        self is Float
    }

    /// The number as an unsigned integer, if it is one.
    pub open spec fn spec_as_u64(self) -> Option<u64> {
        match self {
            JsonNumber::PosInt(n) => Some(n),
            JsonNumber::NegInt(n) => if n >= 0 {
                Some(n as u64)
            } else {
                None
            },
            JsonNumber::Float(_) => None,
        }
    }

    /// The number as a signed integer, if it is one that fits.
    pub open spec fn spec_as_i64(self) -> Option<i64> {
        match self {
            JsonNumber::PosInt(n) => if n <= i64::MAX {
                Some(n as i64)
            } else {
                None
            },
            JsonNumber::NegInt(n) => Some(n),
            JsonNumber::Float(_) => None,
        }
    }

    /// Whether the number is a float.
    #[verifier::when_used_as_spec(spec_is_f64)]
    pub fn is_f64(self) -> (b: bool)
        ensures
            b == self.spec_is_f64(),
    {
        match self {
            JsonNumber::Float(_) => true,
            _ => false,
        }
    }

    /// The number as an unsigned integer, if it is one.
    #[verifier::when_used_as_spec(spec_as_u64)]
    pub fn as_u64(self) -> (r: Option<u64>)
        ensures
            r == self.spec_as_u64(),
    {
        match self {
            JsonNumber::PosInt(n) => Some(n),
            JsonNumber::NegInt(n) => if n >= 0 {
                Some(n as u64)
            } else {
                None
            },
            JsonNumber::Float(_) => None,
        }
    }

    /// The number as a signed integer, if it is one that fits.
    #[verifier::when_used_as_spec(spec_as_i64)]
    pub fn as_i64(self) -> (r: Option<i64>)
        ensures
            r == self.spec_as_i64(),
    {
        match self {
            JsonNumber::PosInt(n) => if n <= 0x7fff_ffff_ffff_ffff {
                Some(n as i64)
            } else {
                None
            },
            JsonNumber::NegInt(n) => Some(n),
            JsonNumber::Float(_) => None,
        }
    }
}

impl JsonValue {
    /// The document as a mathematical tree.
    pub open spec fn tree(&self) -> JsonView
        decreases self,
    {
        match self {
            JsonValue::Null => JsonView::Null,
            JsonValue::Bool(b) => JsonView::Bool(*b),
            JsonValue::Number(n) => JsonView::Number(*n),
            JsonValue::String(s) => JsonView::String(s@),
            JsonValue::Array(items) => JsonView::Array(
                Seq::new(
                    items@.len(),
                    |i: int|
                        if 0 <= i < items@.len() {
                            items@[i].tree()
                        } else {
                            JsonView::Null
                        },
                ),
            ),
            JsonValue::Object(members) => JsonView::Object(
                Seq::new(
                    members@.len(),
                    |i: int|
                        if 0 <= i < members@.len() {
                            (members@[i].0@, members@[i].1.tree())
                        } else {
                            (Seq::empty(), JsonView::Null)
                        },
                ),
            ),
        }
    }
}

impl View for JsonValue {
    type V = JsonView;

    open spec fn view(&self) -> JsonView {
        self.tree()
    }
}

impl JsonView {
    /// The member named `key` of an object: the last one, where the name
    /// occurs more than once. `None` for anything but an object.
    pub open spec fn get(self, key: Seq<char>) -> Option<JsonView> {
        match self {
            JsonView::Object(members) => match member_index(members, key) {
                Some(i) => Some(members[i].1),
                None => None,
            },
            _ => None,
        }
    }
}

impl JsonValue {
    /// The member named `key` of an object: the last one, where the name
    /// occurs more than once. `None` for anything but an object.
    pub fn get(&self, key: &str) -> (r: Option<&JsonValue>)
        ensures
            match r {
                Some(member) => self@.get(key@) == Some(member@),
                None => self@.get(key@) is None,
            },
    {
        match self {
            JsonValue::Object(members) => {
                proof {
                    lemma_member_index_by_names(names_of(members@), self@->Object_0, key@);
                }
                match find_member(members, key) {
                    Some(i) => Some(&members[i].1),
                    None => None,
                }
            },
            _ => None,
        }
    }
}

/// The views of a row of documents.
pub open spec fn documents_view(documents: Seq<JsonValue>) -> Seq<JsonView> {
    Seq::new(documents.len(), |i: int| documents[i]@)
}

/// `serde_json::Value`: a parsed document, as the parser hands it over.
#[verifier::external_type_specification]
#[verifier::external_body]
pub struct ExSerdeJsonValue(serde_json::Value);

/// What `serde_json::from_str` makes of a text: the document it parses the
/// text to, or `None` where it reports an error.
pub uninterp spec fn json_parse(text: Seq<char>) -> Option<JsonView>;

/// The document that a `serde_json::Value` holds: its variant, and under it
/// the same of each element or member, an object's members in the order in
/// which its map yields them.
pub uninterp spec fn json_held(value: serde_json::Value) -> JsonView;

/// What each of a row of `serde_json::Value`s holds.
pub open spec fn json_held_each(values: Seq<serde_json::Value>) -> Seq<JsonView> {
    Seq::new(values.len(), |i: int| json_held(values[i]))
}

/// What each of a row of named `serde_json::Value`s holds, under its name.
pub open spec fn json_held_members(members: Seq<(String, &serde_json::Value)>) -> Seq<
    (Seq<char>, JsonView),
> {
    Seq::new(members.len(), |i: int| (members[i].0@, json_held(*members[i].1)))
}

/// `serde_json::from_str`, asked for a `serde_json::Value`. What it yields
/// depends on the text alone; `json_parse` is the name of it.
#[verifier::external_body]
fn read_text(text: &str) -> (r: Option<serde_json::Value>)
    ensures
        match r {
            Some(value) => json_parse(text@) == Some(json_held(value)),
            None => json_parse(text@) is None,
        },
{
    serde_json::from_str::<Value>(text).ok()
}

/// `serde_json::Value::as_array`: the elements of an array, and `None` for
/// any other variant.
pub assume_specification[ serde_json::Value::as_array ](value: &serde_json::Value) -> (r: Option<
    &Vec<serde_json::Value>,
>)
    ensures
        match r {
            Some(items) => json_held(*value) == JsonView::Array(json_held_each(items@)),
            None => !(json_held(*value) is Array),
        },
;

/// `serde_json::Value::as_object` and `serde_json::Map::iter`: the members of
/// an object in the order in which the map yields them, each name copied, and
/// `None` for any other variant.
#[verifier::external_body]
fn object_members(value: &serde_json::Value) -> (r: Option<Vec<(String, &serde_json::Value)>>)
    ensures
        match r {
            Some(members) => json_held(*value) == JsonView::Object(json_held_members(members@)),
            None => !(json_held(*value) is Object),
        },
{
    value.as_object().map(|map| map.iter().map(|(name, member)| (name.clone(), member)).collect())
}

/// Copies a `serde_json::Value` that is neither array nor object: `Null`, a
/// `Bool`, a `String`, or a `Number`, which is told apart by the first of
/// `as_u64`, `as_i64` and `as_f64` that holds it. `None` for the other two.
#[verifier::external_body]
fn scalar(value: &serde_json::Value) -> (r: Option<JsonValue>)
    ensures
        match r {
            Some(document) => document@ == json_held(*value),
            None => json_held(*value) is Array || json_held(*value) is Object,
        },
{
    Some(match value {
        Value::Null => JsonValue::Null,
        Value::Bool(b) => JsonValue::Bool(*b),
        Value::Number(n) => JsonValue::Number(match (n.as_u64(), n.as_i64()) {
            (Some(u), _) => JsonNumber::PosInt(u),
            (_, Some(i)) => JsonNumber::NegInt(i),
            _ => JsonNumber::Float(n.as_f64().unwrap_or_default().to_bits()),
        }),
        Value::String(s) => JsonValue::String(s.clone()),
        _ => return None,
    })
}

/// Copies a parsed document into a [`JsonValue`], node for node.
fn lift(value: &serde_json::Value) -> (r: JsonValue)
    ensures
        r@ == json_held(*value),
    decreases json_held(*value),
{
    if let Some(items) = value.as_array() {
        let mut out: Vec<JsonValue> = Vec::new();
        let mut i: usize = 0;
        while i < items.len()
            invariant
                i <= items.len(),
                json_held(*value) == JsonView::Array(json_held_each(items@)),
                out.len() == i,
                forall|j: int| 0 <= j < i ==> out@[j]@ == json_held(items@[j]),
            decreases items.len() - i,
        {
            proof {
                let whole = json_held(*value);
                assert(whole->Array_0[i as int] == json_held(items@[i as int]));
                assert(decreases_to!(whole => whole->Array_0));
                assert(decreases_to!(whole->Array_0 => whole->Array_0[i as int]));
            }
            let item = lift(&items[i]);
            out.push(item);
            i = i + 1;
        }
        let document = JsonValue::Array(out);
        assert(document@->Array_0 =~= json_held_each(items@));
        document
    } else if let Some(members) = object_members(value) {
        let mut out: Vec<(String, JsonValue)> = Vec::new();
        let mut i: usize = 0;
        while i < members.len()
            invariant
                i <= members.len(),
                json_held(*value) == JsonView::Object(json_held_members(members@)),
                out.len() == i,
                forall|j: int|
                    0 <= j < i ==> out@[j].0@ == members@[j].0@ && out@[j].1@ == json_held(
                        *members@[j].1,
                    ),
            decreases members.len() - i,
        {
            proof {
                let whole = json_held(*value);
                assert(whole->Object_0[i as int].1 == json_held(*members@[i as int].1));
                assert(decreases_to!(whole => whole->Object_0));
                assert(decreases_to!(whole->Object_0 => whole->Object_0[i as int]));
                assert(decreases_to!(whole->Object_0[i as int] => whole->Object_0[i as int].1));
            }
            let member = lift(members[i].1);
            out.push((members[i].0.clone(), member));
            i = i + 1;
        }
        let document = JsonValue::Object(out);
        assert(document@->Object_0 =~= json_held_members(members@));
        document
    } else {
        match scalar(value) {
            Some(document) => document,
            None => JsonValue::Null,
        }
    }
}

impl JsonValue {
    /// Parses a text as one JSON document.
    pub fn parse(text: &str) -> (r: Option<JsonValue>)
        ensures
            match r {
                Some(document) => json_parse(text@) == Some(document@),
                None => json_parse(text@) is None,
            },
    {
        match read_text(text) {
            Some(value) => Some(lift(&value)),
            None => None,
        }
    }
}

} // verus!
