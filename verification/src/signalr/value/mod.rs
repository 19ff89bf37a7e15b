//! The dynamic value that arguments and results are made of.

use crate::signalr::entries::{find_member, lemma_member_index_by_names, member_index, names_of};
use vstd::prelude::*;

pub mod json;
pub mod msgpack;

verus! {

/// A document node that no [`SignalRValue`] can stand for.
#[derive(Debug, Clone, Copy, PartialEq, Eq, Structural)]
pub struct UnsupportedValueKind;

/// Any argument or result that travels over the protocol, whatever the codec.
///
/// A float is held as the bit pattern of its IEEE 754 binary64 form, so that
/// no conversion ever rounds it. An object is held as the list of its
/// entries. Where a name occurs more than once the last entry counts, see
/// [`SignalRValue::get`]; the order of the entries means nothing beyond that.
#[derive(Debug, PartialEq)]
pub enum SignalRValue {
    Integer(i64),
    Float(u64),
    String(String),
    Boolean(bool),
    Array(Vec<SignalRValue>),
    Object(Vec<(String, SignalRValue)>),
    Null,
}

/// The mathematical form of a [`SignalRValue`].
pub enum ValueView {
    Integer(i64),
    Float(u64),
    String(Seq<char>),
    Boolean(bool),
    Array(Seq<ValueView>),
    Object(Seq<(Seq<char>, ValueView)>),
    Null,
}

impl SignalRValue {
    /// The value as a mathematical tree.
    pub open spec fn tree(&self) -> ValueView
        decreases self,
    {
        match self {
            SignalRValue::Integer(n) => ValueView::Integer(*n),
            SignalRValue::Float(bits) => ValueView::Float(*bits),
            SignalRValue::String(s) => ValueView::String(s@),
            SignalRValue::Boolean(b) => ValueView::Boolean(*b),
            SignalRValue::Array(items) => ValueView::Array(
                Seq::new(
                    items@.len(),
                    |i: int|
                        if 0 <= i < items@.len() {
                            items@[i].tree()
                        } else {
                            ValueView::Null
                        },
                ),
            ),
            SignalRValue::Object(entries) => ValueView::Object(
                Seq::new(
                    entries@.len(),
                    |i: int|
                        if 0 <= i < entries@.len() {
                            (entries@[i].0@, entries@[i].1.tree())
                        } else {
                            (Seq::empty(), ValueView::Null)
                        },
                ),
            ),
            SignalRValue::Null => ValueView::Null,
        }
    }
}

impl ValueView {
    /// The entry named `key` of an object: the last one, where the name
    /// occurs more than once. `None` for anything but an object.
    pub open spec fn get(self, key: Seq<char>) -> Option<ValueView> {
        match self {
            ValueView::Object(entries) => match member_index(entries, key) {
                Some(i) => Some(entries[i].1),
                None => None,
            },
            _ => None,
        }
    }
}

impl SignalRValue {
    /// The entry named `key` of an object: the last one, where the name
    /// occurs more than once. `None` for anything but an object.
    pub fn get(&self, key: &str) -> (r: Option<&SignalRValue>)
        ensures
            match r {
                Some(entry) => self@.get(key@) == Some(entry@),
                None => self@.get(key@) is None,
            },
    {
        match self {
            SignalRValue::Object(entries) => {
                proof {
                    lemma_member_index_by_names(names_of(entries@), self@->Object_0, key@);
                }
                match find_member(entries, key) {
                    Some(i) => Some(&entries[i].1),
                    None => None,
                }
            },
            _ => None,
        }
    }
}

/// The views of a row of values.
pub open spec fn values_view(values: Seq<SignalRValue>) -> Seq<ValueView> {
    Seq::new(values.len(), |i: int| values[i]@)
}

impl View for SignalRValue {
    type V = ValueView;

    open spec fn view(&self) -> ValueView {
        self.tree()
    }
}

} // verus!
