//! Values as JSON documents, and back.

use crate::signalr::entries::{lemma_member_index, lemma_member_index_by_names};
use crate::signalr::json::{documents_view, JsonNumber, JsonValue, JsonView};
use crate::signalr::value::{values_view, SignalRValue, UnsupportedValueKind, ValueView};
use vstd::prelude::*;

verus! {

/// The JSON number that stands for an integer: unsigned from zero up, signed
/// below.
pub open spec fn integer_to_json(n: i64) -> JsonNumber {
    if n >= 0 {
        JsonNumber::PosInt(n as u64)
    } else {
        JsonNumber::NegInt(n)
    }
}

/// The JSON document that stands for a value.
pub open spec fn value_to_json(value: ValueView) -> JsonView
    decreases value,
{
    match value {
        ValueView::Integer(n) => JsonView::Number(integer_to_json(n)),
        ValueView::Float(bits) => JsonView::Number(JsonNumber::Float(bits)),
        ValueView::String(s) => JsonView::String(s),
        ValueView::Boolean(b) => JsonView::Bool(b),
        ValueView::Array(items) => JsonView::Array(
            Seq::new(
                items.len(),
                |i: int|
                    if 0 <= i < items.len() {
                        value_to_json(items[i])
                    } else {
                        JsonView::Null
                    },
            ),
        ),
        ValueView::Object(entries) => JsonView::Object(
            Seq::new(
                entries.len(),
                |i: int|
                    if 0 <= i < entries.len() {
                        (entries[i].0, value_to_json(entries[i].1))
                    } else {
                        (Seq::empty(), JsonView::Null)
                    },
            ),
        ),
        ValueView::Null => JsonView::Null,
    }
}

/// The value that a JSON number stands for: a float where the document tags
/// it as one, whatever its fraction; else the integer, if it fits in 64 signed
/// bits.
pub open spec fn number_from_json(n: JsonNumber) -> Option<ValueView> {
    match n {
        JsonNumber::Float(bits) => Some(ValueView::Float(bits)),
        _ => match n.spec_as_i64() {
            Some(i) => Some(ValueView::Integer(i)),
            None => None,
        },
    }
}

/// The value that a JSON document stands for; `None` where a number in it is
/// an integer beyond 64 signed bits.
pub open spec fn value_from_json(document: JsonView) -> Option<ValueView>
    decreases document,
{
    match document {
        JsonView::Null => Some(ValueView::Null),
        JsonView::Bool(b) => Some(ValueView::Boolean(b)),
        JsonView::Number(n) => number_from_json(n),
        JsonView::String(s) => Some(ValueView::String(s)),
        JsonView::Array(items) => if forall|i: int|
            0 <= i < items.len() ==> value_from_json(items[i]) is Some {
            Some(
                ValueView::Array(
                    Seq::new(
                        items.len(),
                        |i: int|
                            if 0 <= i < items.len() {
                                value_from_json(items[i])->0
                            } else {
                                ValueView::Null
                            },
                    ),
                ),
            )
        } else {
            None
        },
        JsonView::Object(members) => if forall|i: int|
            0 <= i < members.len() ==> value_from_json(members[i].1) is Some {
            Some(
                ValueView::Object(
                    Seq::new(
                        members.len(),
                        |i: int|
                            if 0 <= i < members.len() {
                                (members[i].0, value_from_json(members[i].1)->0)
                            } else {
                                (Seq::empty(), ValueView::Null)
                            },
                    ),
                ),
            )
        } else {
            None
        },
    }
}

/// The JSON documents that stand for a row of values.
pub open spec fn values_to_json(values: Seq<ValueView>) -> Seq<JsonView> {
    Seq::new(values.len(), |i: int| value_to_json(values[i]))
}

/// The values that a row of JSON documents stands for; `None` where one of
/// them stands for none.
pub open spec fn values_from_json(documents: Seq<JsonView>) -> Option<Seq<ValueView>> {
    if forall|i: int| 0 <= i < documents.len() ==> value_from_json(documents[i]) is Some {
        Some(Seq::new(documents.len(), |i: int| value_from_json(documents[i])->0))
    } else {
        None
    }
}

/// A value that went to JSON comes back as it was.
pub proof fn lemma_json_round_trip(value: ValueView)
    ensures
        value_from_json(value_to_json(value)) == Some(value),
    decreases value,
{
    match value {
        ValueView::Array(items) => {
            let sent = value_to_json(value)->Array_0;
            assert forall|i: int| 0 <= i < sent.len() implies value_from_json(sent[i]) == Some(
                items[i],
            ) by {
                lemma_json_round_trip(items[i]);
            }
            assert(value_from_json(value_to_json(value))->0->Array_0 =~= items);
        },
        ValueView::Object(entries) => {
            let sent = value_to_json(value)->Object_0;
            assert forall|i: int| 0 <= i < sent.len() implies value_from_json(sent[i].1) == Some(
                entries[i].1,
            ) by {
                lemma_json_round_trip(entries[i].1);
            }
            assert(value_from_json(value_to_json(value))->0->Object_0 =~= entries);
        },
        _ => {},
    }
}

/// Going to JSON keeps what is where in an object: the member that a name
/// finds in the document stands for the entry that the name finds in the
/// value.
pub proof fn lemma_json_keeps_members(value: ValueView, key: Seq<char>)
    ensures
        value_to_json(value).get(key) == match value.get(key) {
            Some(entry) => Some(value_to_json(entry)),
            None => None,
        },
{
    if let ValueView::Object(entries) = value {
        lemma_member_index_by_names(entries, value_to_json(value)->Object_0, key);
        lemma_member_index(entries, key);
    }
}

/// A row of values that went to JSON comes back as it was.
pub proof fn lemma_json_row_round_trip(values: Seq<ValueView>)
    ensures
        values_from_json(values_to_json(values)) == Some(values),
{
    assert forall|i: int| 0 <= i < values.len() implies value_from_json(
        values_to_json(values)[i],
    ) == Some(values[i]) by {
        lemma_json_round_trip(values[i]);
    }
    assert(values_from_json(values_to_json(values))->0 =~= values);
}

impl SignalRValue {
    /// The JSON document that stands for this value.
    #[verifier::loop_isolation(false)]
    pub fn to_json(&self) -> (r: JsonValue)
        ensures
            r@ == value_to_json(self@),
        decreases self,
    {
        match self {
            SignalRValue::Integer(n) => {
                if *n >= 0 {
                    JsonValue::Number(JsonNumber::PosInt(*n as u64))
                } else {
                    JsonValue::Number(JsonNumber::NegInt(*n))
                }
            },
            SignalRValue::Float(bits) => JsonValue::Number(JsonNumber::Float(*bits)),
            SignalRValue::String(s) => JsonValue::String(s.clone()),
            SignalRValue::Boolean(b) => JsonValue::Bool(*b),
            SignalRValue::Array(items) => {
                let mut out: Vec<JsonValue> = Vec::new();
                let mut i: usize = 0;
                while i < items.len()
                    invariant
                        i <= items.len(),
                        out.len() == i,
                        forall|j: int| 0 <= j < i ==> out@[j]@ == value_to_json(items@[j]@),
                    decreases items.len() - i,
                {
                    let item = items[i].to_json();
                    out.push(item);
                    i = i + 1;
                }
                let document = JsonValue::Array(out);
                assert(document@->Array_0 =~= value_to_json(self@)->Array_0);
                document
            },
            SignalRValue::Object(entries) => {
                let mut out: Vec<(String, JsonValue)> = Vec::new();
                let mut i: usize = 0;
                while i < entries.len()
                    invariant
                        i <= entries.len(),
                        out.len() == i,
                        forall|j: int|
                            0 <= j < i ==> out@[j].0@ == entries@[j].0@ && out@[j].1@
                                == value_to_json(entries@[j].1@),
                    decreases entries.len() - i,
                {
                    let member = entries[i].1.to_json();
                    out.push((entries[i].0.clone(), member));
                    i = i + 1;
                }
                let document = JsonValue::Object(out);
                assert(document@->Object_0 =~= value_to_json(self@)->Object_0);
                document
            },
            SignalRValue::Null => JsonValue::Null,
        }
    }

    /// The value that a JSON document stands for. It fails where a number in
    /// the document is an integer beyond 64 signed bits, and only there.
    #[verifier::loop_isolation(false)]
    pub fn from_json(document: &JsonValue) -> (r: Result<SignalRValue, UnsupportedValueKind>)
        ensures
            match r {
                Ok(value) => value_from_json(document@) == Some(value@),
                Err(_) => value_from_json(document@) is None,
            },
        decreases document,
    {
        match document {
            JsonValue::Null => Ok(SignalRValue::Null),
            JsonValue::Bool(b) => Ok(SignalRValue::Boolean(*b)),
            JsonValue::Number(n) => {
                match n {
                    JsonNumber::Float(bits) => Ok(SignalRValue::Float(*bits)),
                    _ => match n.as_i64() {
                        Some(i) => Ok(SignalRValue::Integer(i)),
                        None => Err(UnsupportedValueKind),
                    },
                }
            },
            JsonValue::String(s) => Ok(SignalRValue::String(s.clone())),
            JsonValue::Array(items) => {
                let mut out: Vec<SignalRValue> = Vec::new();
                let mut i: usize = 0;
                while i < items.len()
                    invariant
                        i <= items.len(),
                        out.len() == i,
                        forall|j: int|
                            0 <= j < i ==> value_from_json(items@[j]@) == Some(out@[j]@),
                    decreases items.len() - i,
                {
                    match SignalRValue::from_json(&items[i]) {
                        Ok(item) => out.push(item),
                        Err(e) => {
                            assert(document@->Array_0[i as int] == items@[i as int]@);
                            return Err(e);
                        },
                    }
                    i = i + 1;
                }
                let value = SignalRValue::Array(out);
                assert forall|j: int| 0 <= j < items.len() implies value_from_json(
                    document@->Array_0[j],
                ) is Some by {
                    assert(document@->Array_0[j] == items@[j]@);
                }
                assert(value@->Array_0 =~= value_from_json(document@)->0->Array_0);
                Ok(value)
            },
            JsonValue::Object(members) => {
                let mut out: Vec<(String, SignalRValue)> = Vec::new();
                let mut i: usize = 0;
                while i < members.len()
                    invariant
                        i <= members.len(),
                        out.len() == i,
                        forall|j: int|
                            0 <= j < i ==> out@[j].0@ == members@[j].0@ && value_from_json(
                                members@[j].1@,
                            ) == Some(out@[j].1@),
                    decreases members.len() - i,
                {
                    match SignalRValue::from_json(&members[i].1) {
                        Ok(item) => out.push((members[i].0.clone(), item)),
                        Err(e) => {
                            assert(document@->Object_0[i as int].1 == members@[i as int].1@);
                            return Err(e);
                        },
                    }
                    i = i + 1;
                }
                let value = SignalRValue::Object(out);
                assert forall|j: int| 0 <= j < members.len() implies value_from_json(
                    document@->Object_0[j].1,
                ) is Some by {
                    assert(document@->Object_0[j].1 == members@[j].1@);
                }
                assert(value@->Object_0 =~= value_from_json(document@)->0->Object_0);
                Ok(value)
            },
        }
    }
}

/// The JSON documents that stand for a row of values.
pub fn values_as_json(values: &Vec<SignalRValue>) -> (documents: Vec<JsonValue>)
    ensures
        documents_view(documents@) == values_to_json(values_view(values@)),
{
    let mut out: Vec<JsonValue> = Vec::new();
    let mut i: usize = 0;
    while i < values.len()
        invariant
            i <= values.len(),
            out.len() == i,
            forall|j: int| 0 <= j < i ==> out@[j]@ == value_to_json(values@[j]@),
        decreases values.len() - i,
    {
        let document = values[i].to_json();
        out.push(document);
        i = i + 1;
    }
    assert(documents_view(out@) =~= values_to_json(values_view(values@)));
    out
}

/// The values that a row of JSON documents stands for. It fails where
/// [`SignalRValue::from_json`] fails for one of them.
pub fn values_of_json(documents: &Vec<JsonValue>) -> (r: Result<
    Vec<SignalRValue>,
    UnsupportedValueKind,
>)
    ensures
        match r {
            Ok(values) => values_from_json(documents_view(documents@)) == Some(
                values_view(values@),
            ),
            Err(_) => values_from_json(documents_view(documents@)) is None,
        },
{
    let mut out: Vec<SignalRValue> = Vec::new();
    let mut i: usize = 0;
    while i < documents.len()
        invariant
            i <= documents.len(),
            out.len() == i,
            forall|j: int| 0 <= j < i ==> value_from_json(documents@[j]@) == Some(out@[j]@),
        decreases documents.len() - i,
    {
        match SignalRValue::from_json(&documents[i]) {
            Ok(value) => out.push(value),
            Err(e) => {
                assert(documents_view(documents@)[i as int] == documents@[i as int]@);
                return Err(e);
            },
        }
        i = i + 1;
    }
    assert forall|j: int| 0 <= j < documents.len() implies value_from_json(
        documents_view(documents@)[j],
    ) is Some by {
        assert(documents_view(documents@)[j] == documents@[j]@);
    }
    assert(values_view(out@) =~= values_from_json(documents_view(documents@))->0);
    Ok(out)
}

} // verus!
