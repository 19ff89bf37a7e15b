//! MessagePack documents: the tree that binary payloads are decoded into, and
//! the decoder that `rmpv` provides for it.

use rmpv::Value;
use vstd::prelude::*;

verus! {

/// A MessagePack integer, told apart the way `rmpv` stores it: zero or more,
/// or below zero.
#[derive(Debug, Clone, Copy, PartialEq, Eq, Structural)]
pub enum MsgpackInteger {
    PosInt(u64),
    NegInt(i64),
}

/// A MessagePack document.
///
/// A float is held as the bit pattern of the IEEE 754 binary64 float of the
/// same value, whether it travels as `F32` or as `F64`. A `str` whose bytes
/// are not UTF-8 is held as `Binary`. A map is the list of its entries in
/// document order.
#[derive(Debug, PartialEq)]
pub enum MsgpackValue {
    Nil,
    Boolean(bool),
    Integer(MsgpackInteger),
    F32(u64),
    F64(u64),
    String(String),
    Binary(Vec<u8>),
    Array(Vec<MsgpackValue>),
    Mapping(Vec<(MsgpackValue, MsgpackValue)>),
    Ext(i8, Vec<u8>),
}

/// The mathematical form of a [`MsgpackValue`].
pub enum MsgpackView {
    Nil,
    Boolean(bool),
    Integer(MsgpackInteger),
    F32(u64),
    F64(u64),
    String(Seq<char>),
    Binary(Seq<u8>),
    Array(Seq<MsgpackView>),
    Mapping(Seq<(MsgpackView, MsgpackView)>),
    Ext(i8, Seq<u8>),
}

impl MsgpackInteger {
    /// The integer as an unsigned one, if it is zero or more.
    pub open spec fn spec_as_u64(self) -> Option<u64> {
        match self {
            MsgpackInteger::PosInt(n) => Some(n),
            MsgpackInteger::NegInt(n) => if n >= 0 {
                Some(n as u64)
            } else {
                None
            },
        }
    }

    /// The integer as a signed one, if it fits.
    pub open spec fn spec_as_i64(self) -> Option<i64> {
        match self {
            MsgpackInteger::PosInt(n) => if n <= i64::MAX {
                Some(n as i64)
            } else {
                None
            },
            MsgpackInteger::NegInt(n) => Some(n),
        }
    }

    /// The integer as an unsigned one, if it is zero or more.
    #[verifier::when_used_as_spec(spec_as_u64)]
    pub fn as_u64(self) -> (r: Option<u64>)
        ensures
            r == self.spec_as_u64(),
    {
        match self {
            MsgpackInteger::PosInt(n) => Some(n),
            MsgpackInteger::NegInt(n) => if n >= 0 {
                Some(n as u64)
            } else {
                None
            },
        }
    }

    /// The integer as a signed one, if it fits.
    #[verifier::when_used_as_spec(spec_as_i64)]
    pub fn as_i64(self) -> (r: Option<i64>)
        ensures
            r == self.spec_as_i64(),
    {
        match self {
            MsgpackInteger::PosInt(n) => if n <= 0x7fff_ffff_ffff_ffff {
                Some(n as i64)
            } else {
                None
            },
            MsgpackInteger::NegInt(n) => Some(n),
        }
    }
}

impl MsgpackValue {
    /// The document as a mathematical tree.
    pub open spec fn tree(&self) -> MsgpackView
        decreases self,
    {
        match self {
            MsgpackValue::Nil => MsgpackView::Nil,
            MsgpackValue::Boolean(b) => MsgpackView::Boolean(*b),
            MsgpackValue::Integer(n) => MsgpackView::Integer(*n),
            MsgpackValue::F32(bits) => MsgpackView::F32(*bits),
            MsgpackValue::F64(bits) => MsgpackView::F64(*bits),
            MsgpackValue::String(s) => MsgpackView::String(s@),
            MsgpackValue::Binary(bytes) => MsgpackView::Binary(bytes@),
            MsgpackValue::Array(items) => MsgpackView::Array(
                Seq::new(
                    items@.len(),
                    |i: int|
                        if 0 <= i < items@.len() {
                            items@[i].tree()
                        } else {
                            MsgpackView::Nil
                        },
                ),
            ),
            MsgpackValue::Mapping(entries) => MsgpackView::Mapping(
                Seq::new(
                    entries@.len(),
                    |i: int|
                        if 0 <= i < entries@.len() {
                            (entries@[i].0.tree(), entries@[i].1.tree())
                        } else {
                            (MsgpackView::Nil, MsgpackView::Nil)
                        },
                ),
            ),
            MsgpackValue::Ext(tag, data) => MsgpackView::Ext(*tag, data@),
        }
    }
}

impl View for MsgpackValue {
    type V = MsgpackView;

    open spec fn view(&self) -> MsgpackView {
        self.tree()
    }
}

/// The views of a row of documents.
pub open spec fn documents_view(documents: Seq<MsgpackValue>) -> Seq<MsgpackView> {
    Seq::new(documents.len(), |i: int| documents[i]@)
}

/// `rmpv::Value`: a decoded document, as the decoder hands it over.
#[verifier::external_type_specification]
#[verifier::external_body]
pub struct ExRmpvValue(rmpv::Value);

/// What `rmpv::decode::read_value` makes of the bytes it is given: the
/// document at their start, or `None` where it reports an error.
pub uninterp spec fn msgpack_parse(bytes: Seq<u8>) -> Option<MsgpackView>;

/// The document that an `rmpv::Value` holds: its variant, and under it the
/// same of each element or entry; a `str` that is not UTF-8 as `Binary`, and a
/// float as the binary64 float of its value.
pub uninterp spec fn msgpack_held(value: rmpv::Value) -> MsgpackView;

/// What each of a row of `rmpv::Value`s holds.
pub open spec fn msgpack_held_each(values: Seq<rmpv::Value>) -> Seq<MsgpackView> {
    Seq::new(values.len(), |i: int| msgpack_held(values[i]))
}

/// What each of a row of pairs of `rmpv::Value`s holds.
pub open spec fn msgpack_held_entries(entries: Seq<(rmpv::Value, rmpv::Value)>) -> Seq<
    (MsgpackView, MsgpackView),
> {
    Seq::new(entries.len(), |i: int| (msgpack_held(entries[i].0), msgpack_held(entries[i].1)))
}

/// `rmpv::decode::read_value` on a byte slice. What it yields depends on the
/// bytes alone; `msgpack_parse` is the name of it. Bytes after the first
/// document are not looked at.
#[verifier::external_body]
fn read_payload(payload: &[u8]) -> (r: Option<rmpv::Value>)
    ensures
        match r {
            Some(value) => msgpack_parse(payload@) == Some(msgpack_held(value)),
            None => msgpack_parse(payload@) is None,
        },
{
    let mut rest = payload;
    rmpv::decode::read_value(&mut rest).ok()
}

/// `rmpv::Value::as_array`: the elements of an array, and `None` for any other
/// variant.
pub assume_specification[ rmpv::Value::as_array ](value: &rmpv::Value) -> (r: Option<
    &Vec<rmpv::Value>,
>)
    ensures
        match r {
            Some(items) => msgpack_held(*value) == MsgpackView::Array(msgpack_held_each(items@)),
            None => !(msgpack_held(*value) is Array),
        },
;

/// `rmpv::Value::as_map`: the entries of a map, and `None` for any other
/// variant.
pub assume_specification[ rmpv::Value::as_map ](value: &rmpv::Value) -> (r: Option<
    &Vec<(rmpv::Value, rmpv::Value)>,
>)
    ensures
        match r {
            Some(entries) => msgpack_held(*value) == MsgpackView::Mapping(
                msgpack_held_entries(entries@),
            ),
            None => !(msgpack_held(*value) is Mapping),
        },
;

/// Copies an `rmpv::Value` that is a number: an `Integer` by `as_u64` where
/// that holds it and by `as_i64` where not, a float by the bits of what
/// `as_f64` gives for it. `None` for any other variant.
#[verifier::external_body]
fn number(value: &rmpv::Value) -> (r: Option<MsgpackValue>)
    ensures
        match r {
            Some(document) => document@ == msgpack_held(*value),
            None => !(msgpack_held(*value) is Integer || msgpack_held(*value) is F32
                || msgpack_held(*value) is F64),
        },
{
    Some(match value {
        Value::Integer(n) => MsgpackValue::Integer(match n.as_u64() {
            Some(u) => MsgpackInteger::PosInt(u),
            None => MsgpackInteger::NegInt(n.as_i64().unwrap_or_default()),
        }),
        Value::F32(_) => MsgpackValue::F32(value.as_f64().unwrap_or_default().to_bits()),
        Value::F64(x) => MsgpackValue::F64(x.to_bits()),
        _ => return None,
    })
}

/// Copies an `rmpv::Value` that is `Nil`, a `Boolean`, a `String`, a `Binary`
/// or an `Ext`; a `String` for which `as_str` gives nothing goes by its bytes
/// to `Binary`. `None` for any other variant.
#[verifier::external_body]
fn atom(value: &rmpv::Value) -> (r: Option<MsgpackValue>)
    ensures
        match r {
            Some(document) => document@ == msgpack_held(*value),
            None => !(msgpack_held(*value) is Nil || msgpack_held(*value) is Boolean
                || msgpack_held(*value) is String || msgpack_held(*value) is Binary
                || msgpack_held(*value) is Ext),
        },
{
    Some(match value {
        Value::Nil => MsgpackValue::Nil,
        Value::Boolean(b) => MsgpackValue::Boolean(*b),
        Value::String(s) => match s.as_str() {
            Some(text) => MsgpackValue::String(text.to_owned()),
            None => MsgpackValue::Binary(s.as_bytes().to_vec()),
        },
        Value::Binary(bytes) => MsgpackValue::Binary(bytes.clone()),
        Value::Ext(tag, data) => MsgpackValue::Ext(*tag, data.clone()),
        _ => return None,
    })
}

/// Copies a decoded document into a [`MsgpackValue`], node for node.
fn lift(value: &rmpv::Value) -> (r: MsgpackValue)
    ensures
        r@ == msgpack_held(*value),
    decreases msgpack_held(*value),
{
    if let Some(items) = value.as_array() {
        let mut out: Vec<MsgpackValue> = Vec::new();
        let mut i: usize = 0;
        while i < items.len()
            invariant
                i <= items.len(),
                msgpack_held(*value) == MsgpackView::Array(msgpack_held_each(items@)),
                out.len() == i,
                forall|j: int| 0 <= j < i ==> out@[j]@ == msgpack_held(items@[j]),
            decreases items.len() - i,
        {
            proof {
                let whole = msgpack_held(*value);
                assert(whole->Array_0[i as int] == msgpack_held(items@[i as int]));
                assert(decreases_to!(whole => whole->Array_0));
                assert(decreases_to!(whole->Array_0 => whole->Array_0[i as int]));
            }
            let item = lift(&items[i]);
            out.push(item);
            i = i + 1;
        }
        let document = MsgpackValue::Array(out);
        assert(document@->Array_0 =~= msgpack_held_each(items@));
        document
    } else if let Some(entries) = value.as_map() {
        let mut out: Vec<(MsgpackValue, MsgpackValue)> = Vec::new();
        let mut i: usize = 0;
        while i < entries.len()
            invariant
                i <= entries.len(),
                msgpack_held(*value) == MsgpackView::Mapping(msgpack_held_entries(entries@)),
                out.len() == i,
                forall|j: int|
                    0 <= j < i ==> out@[j].0@ == msgpack_held(entries@[j].0) && out@[j].1@
                        == msgpack_held(entries@[j].1),
            decreases entries.len() - i,
        {
            proof {
                let whole = msgpack_held(*value);
                assert(whole->Mapping_0[i as int] == (
                    msgpack_held(entries@[i as int].0),
                    msgpack_held(entries@[i as int].1),
                ));
                assert(decreases_to!(whole => whole->Mapping_0));
                assert(decreases_to!(whole->Mapping_0 => whole->Mapping_0[i as int]));
                assert(decreases_to!(whole->Mapping_0[i as int] => whole->Mapping_0[i as int].0));
                assert(decreases_to!(whole->Mapping_0[i as int] => whole->Mapping_0[i as int].1));
            }
            let key = lift(&entries[i].0);
            let item = lift(&entries[i].1);
            out.push((key, item));
            i = i + 1;
        }
        let document = MsgpackValue::Mapping(out);
        assert(document@->Mapping_0 =~= msgpack_held_entries(entries@));
        document
    } else if let Some(document) = number(value) {
        document
    } else {
        match atom(value) {
            Some(document) => document,
            None => MsgpackValue::Nil,
        }
    }
}

impl MsgpackValue {
    /// Decodes the document at the start of `payload`.
    pub fn decode(payload: &[u8]) -> (r: Option<MsgpackValue>)
        ensures
            match r {
                Some(document) => msgpack_parse(payload@) == Some(document@),
                None => msgpack_parse(payload@) is None,
            },
    {
        match read_payload(payload) {
            Some(value) => Some(lift(&value)),
            None => None,
        }
    }
}

} // verus!
