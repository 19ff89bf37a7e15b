//! Values as MessagePack documents, and back.

use crate::signalr::msgpack::{documents_view, MsgpackInteger, MsgpackValue, MsgpackView};
use crate::signalr::value::{values_view, SignalRValue, UnsupportedValueKind, ValueView};
use vstd::prelude::*;

verus! {

/// The MessagePack integer that stands for an integer: unsigned from zero up,
/// signed below.
pub open spec fn integer_to_msgpack(n: i64) -> MsgpackInteger {
    if n >= 0 {
        MsgpackInteger::PosInt(n as u64)
    } else {
        MsgpackInteger::NegInt(n)
    }
}

/// The MessagePack document that stands for a value. A float always goes out
/// as `F64`, an object as a map with `String` keys.
pub open spec fn value_to_msgpack(value: ValueView) -> MsgpackView
    decreases value,
{
    match value {
        ValueView::Integer(n) => MsgpackView::Integer(integer_to_msgpack(n)),
        ValueView::Float(bits) => MsgpackView::F64(bits),
        ValueView::String(s) => MsgpackView::String(s),
        ValueView::Boolean(b) => MsgpackView::Boolean(b),
        ValueView::Array(items) => MsgpackView::Array(
            Seq::new(
                items.len(),
                |i: int|
                    if 0 <= i < items.len() {
                        value_to_msgpack(items[i])
                    } else {
                        MsgpackView::Nil
                    },
            ),
        ),
        ValueView::Object(entries) => MsgpackView::Mapping(
            Seq::new(
                entries.len(),
                |i: int|
                    if 0 <= i < entries.len() {
                        (MsgpackView::String(entries[i].0), value_to_msgpack(entries[i].1))
                    } else {
                        (MsgpackView::Nil, MsgpackView::Nil)
                    },
            ),
        ),
        ValueView::Null => MsgpackView::Nil,
    }
}

/// The value that a MessagePack document stands for. A float of either width
/// comes in as a float. There is none, so `None`, for a `Binary`, an `Ext`,
/// an integer beyond 64 signed bits, and a map with a key that is no `String`;
/// nor for a document that holds one of these.
pub open spec fn value_from_msgpack(document: MsgpackView) -> Option<ValueView>
    decreases document,
{
    match document {
        MsgpackView::Nil => Some(ValueView::Null),
        MsgpackView::Boolean(b) => Some(ValueView::Boolean(b)),
        MsgpackView::Integer(n) => match n.spec_as_i64() {
            Some(i) => Some(ValueView::Integer(i)),
            None => None,
        },
        MsgpackView::F32(bits) => Some(ValueView::Float(bits)),
        MsgpackView::F64(bits) => Some(ValueView::Float(bits)),
        MsgpackView::String(s) => Some(ValueView::String(s)),
        MsgpackView::Binary(_) => None,
        MsgpackView::Array(items) => if forall|i: int|
            0 <= i < items.len() ==> value_from_msgpack(items[i]) is Some {
            Some(
                ValueView::Array(
                    Seq::new(
                        items.len(),
                        |i: int|
                            if 0 <= i < items.len() {
                                value_from_msgpack(items[i])->0
                            } else {
                                ValueView::Null
                            },
                    ),
                ),
            )
        } else {
            None
        },
        MsgpackView::Mapping(entries) => if forall|i: int|
            0 <= i < entries.len() ==> entries[i].0 is String && value_from_msgpack(
                entries[i].1,
            ) is Some {
            Some(
                ValueView::Object(
                    Seq::new(
                        entries.len(),
                        |i: int|
                            if 0 <= i < entries.len() {
                                (entries[i].0->String_0, value_from_msgpack(entries[i].1)->0)
                            } else {
                                (Seq::empty(), ValueView::Null)
                            },
                    ),
                ),
            )
        } else {
            None
        },
        MsgpackView::Ext(_, _) => None,
    }
}

/// The values that a row of MessagePack documents stands for; `None` where
/// one of them stands for none.
pub open spec fn values_from_msgpack(documents: Seq<MsgpackView>) -> Option<Seq<ValueView>> {
    if forall|i: int| 0 <= i < documents.len() ==> value_from_msgpack(documents[i]) is Some {
        Some(Seq::new(documents.len(), |i: int| value_from_msgpack(documents[i])->0))
    } else {
        None
    }
}

/// A value that went to MessagePack comes back as it was.
pub proof fn lemma_msgpack_round_trip(value: ValueView)
    ensures
        value_from_msgpack(value_to_msgpack(value)) == Some(value),
    decreases value,
{
    match value {
        ValueView::Array(items) => {
            let sent = value_to_msgpack(value)->Array_0;
            assert forall|i: int| 0 <= i < sent.len() implies value_from_msgpack(sent[i]) == Some(
                items[i],
            ) by {
                lemma_msgpack_round_trip(items[i]);
            }
            assert(value_from_msgpack(value_to_msgpack(value))->0->Array_0 =~= items);
        },
        ValueView::Object(entries) => {
            let sent = value_to_msgpack(value)->Mapping_0;
            assert forall|i: int| 0 <= i < sent.len() implies sent[i].0 == MsgpackView::String(
                entries[i].0,
            ) && value_from_msgpack(sent[i].1) == Some(entries[i].1) by {
                lemma_msgpack_round_trip(entries[i].1);
            }
            assert(value_from_msgpack(value_to_msgpack(value))->0->Object_0 =~= entries);
        },
        _ => {},
    }
}

/// A float that came in as `F32` goes out as `F64`: the one way in which a
/// document that stands for a value may differ from what the value is sent as.
pub proof fn lemma_msgpack_single_widens(bits: u64)
    ensures
        value_from_msgpack(MsgpackView::F32(bits)) == Some(ValueView::Float(bits)),
        value_to_msgpack(ValueView::Float(bits)) == MsgpackView::F64(bits),
{
}

impl SignalRValue {
    /// The MessagePack document that stands for this value.
    #[verifier::loop_isolation(false)]
    pub fn to_msgpack(&self) -> (r: MsgpackValue)
        ensures
            r@ == value_to_msgpack(self@),
        decreases self,
    {
        match self {
            SignalRValue::Integer(n) => {
                if *n >= 0 {
                    MsgpackValue::Integer(MsgpackInteger::PosInt(*n as u64))
                } else {
                    MsgpackValue::Integer(MsgpackInteger::NegInt(*n))
                }
            },
            SignalRValue::Float(bits) => MsgpackValue::F64(*bits),
            SignalRValue::String(s) => MsgpackValue::String(s.clone()),
            SignalRValue::Boolean(b) => MsgpackValue::Boolean(*b),
            SignalRValue::Array(items) => {
                let mut out: Vec<MsgpackValue> = Vec::new();
                let mut i: usize = 0;
                while i < items.len()
                    invariant
                        i <= items.len(),
                        out.len() == i,
                        forall|j: int| 0 <= j < i ==> out@[j]@ == value_to_msgpack(items@[j]@),
                    decreases items.len() - i,
                {
                    let item = items[i].to_msgpack();
                    out.push(item);
                    i = i + 1;
                }
                let document = MsgpackValue::Array(out);
                assert(document@->Array_0 =~= value_to_msgpack(self@)->Array_0);
                document
            },
            SignalRValue::Object(entries) => {
                let mut out: Vec<(MsgpackValue, MsgpackValue)> = Vec::new();
                let mut i: usize = 0;
                while i < entries.len()
                    invariant
                        i <= entries.len(),
                        out.len() == i,
                        forall|j: int|
                            0 <= j < i ==> out@[j].0@ == MsgpackView::String(entries@[j].0@)
                                && out@[j].1@ == value_to_msgpack(entries@[j].1@),
                    decreases entries.len() - i,
                {
                    let item = entries[i].1.to_msgpack();
                    out.push((MsgpackValue::String(entries[i].0.clone()), item));
                    i = i + 1;
                }
                let document = MsgpackValue::Mapping(out);
                assert(document@->Mapping_0 =~= value_to_msgpack(self@)->Mapping_0);
                document
            },
            SignalRValue::Null => MsgpackValue::Nil,
        }
    }

    /// The value that a MessagePack document stands for. It fails where the
    /// document holds a `Binary`, an `Ext`, an integer beyond 64 signed bits
    /// or a map key that is no `String`, and only there.
    #[verifier::loop_isolation(false)]
    pub fn from_msgpack(document: &MsgpackValue) -> (r: Result<SignalRValue, UnsupportedValueKind>)
        ensures
            match r {
                Ok(value) => value_from_msgpack(document@) == Some(value@),
                Err(_) => value_from_msgpack(document@) is None,
            },
        decreases document,
    {
        match document {
            MsgpackValue::Nil => Ok(SignalRValue::Null),
            MsgpackValue::Boolean(b) => Ok(SignalRValue::Boolean(*b)),
            MsgpackValue::Integer(n) => match n.as_i64() {
                Some(i) => Ok(SignalRValue::Integer(i)),
                None => Err(UnsupportedValueKind),
            },
            MsgpackValue::F32(bits) => Ok(SignalRValue::Float(*bits)),
            MsgpackValue::F64(bits) => Ok(SignalRValue::Float(*bits)),
            MsgpackValue::String(s) => Ok(SignalRValue::String(s.clone())),
            MsgpackValue::Binary(_) => Err(UnsupportedValueKind),
            MsgpackValue::Array(items) => {
                let mut out: Vec<SignalRValue> = Vec::new();
                let mut i: usize = 0;
                while i < items.len()
                    invariant
                        i <= items.len(),
                        out.len() == i,
                        forall|j: int|
                            0 <= j < i ==> value_from_msgpack(items@[j]@) == Some(out@[j]@),
                    decreases items.len() - i,
                {
                    match SignalRValue::from_msgpack(&items[i]) {
                        Ok(item) => out.push(item),
                        Err(e) => {
                            assert(document@->Array_0[i as int] == items@[i as int]@);
                            return Err(e);
                        },
                    }
                    i = i + 1;
                }
                let value = SignalRValue::Array(out);
                assert forall|j: int| 0 <= j < items.len() implies value_from_msgpack(
                    document@->Array_0[j],
                ) is Some by {
                    assert(document@->Array_0[j] == items@[j]@);
                }
                assert(value@->Array_0 =~= value_from_msgpack(document@)->0->Array_0);
                Ok(value)
            },
            MsgpackValue::Mapping(entries) => {
                let mut out: Vec<(String, SignalRValue)> = Vec::new();
                let mut i: usize = 0;
                while i < entries.len()
                    invariant
                        i <= entries.len(),
                        out.len() == i,
                        forall|j: int|
                            0 <= j < i ==> entries@[j].0@ == MsgpackView::String(out@[j].0@)
                                && value_from_msgpack(entries@[j].1@) == Some(out@[j].1@),
                    decreases entries.len() - i,
                {
                    assert(document@->Mapping_0[i as int] == (
                        entries@[i as int].0@,
                        entries@[i as int].1@,
                    ));
                    let key = match &entries[i].0 {
                        MsgpackValue::String(s) => s.clone(),
                        _ => {
                            return Err(UnsupportedValueKind);
                        },
                    };
                    match SignalRValue::from_msgpack(&entries[i].1) {
                        Ok(item) => out.push((key, item)),
                        Err(e) => {
                            return Err(e);
                        },
                    }
                    i = i + 1;
                }
                let value = SignalRValue::Object(out);
                assert forall|j: int| 0 <= j < entries.len() implies document@->Mapping_0[j].0 is String
                    && value_from_msgpack(document@->Mapping_0[j].1) is Some by {
                    assert(document@->Mapping_0[j] == (entries@[j].0@, entries@[j].1@));
                }
                assert(value@->Object_0 =~= value_from_msgpack(document@)->0->Object_0);
                Ok(value)
            },
            MsgpackValue::Ext(_, _) => Err(UnsupportedValueKind),
        }
    }
}

/// The values that a row of MessagePack documents stands for. It fails where
/// [`SignalRValue::from_msgpack`] fails for one of them.
pub fn values_of_msgpack(documents: &Vec<MsgpackValue>) -> (r: Result<
    Vec<SignalRValue>,
    UnsupportedValueKind,
>)
    ensures
        match r {
            Ok(values) => values_from_msgpack(documents_view(documents@)) == Some(
                values_view(values@),
            ),
            Err(_) => values_from_msgpack(documents_view(documents@)) is None,
        },
{
    let mut out: Vec<SignalRValue> = Vec::new();
    let mut i: usize = 0;
    while i < documents.len()
        invariant
            i <= documents.len(),
            out.len() == i,
            forall|j: int| 0 <= j < i ==> value_from_msgpack(documents@[j]@) == Some(out@[j]@),
        decreases documents.len() - i,
    {
        match SignalRValue::from_msgpack(&documents[i]) {
            Ok(value) => out.push(value),
            Err(e) => {
                assert(documents_view(documents@)[i as int] == documents@[i as int]@);
                return Err(e);
            },
        }
        i = i + 1;
    }
    assert forall|j: int| 0 <= j < documents.len() implies value_from_msgpack(
        documents_view(documents@)[j],
    ) is Some by {
        assert(documents_view(documents@)[j] == documents@[j]@);
    }
    assert(values_view(out@) =~= values_from_msgpack(documents_view(documents@))->0);
    Ok(out)
}

} // verus!
