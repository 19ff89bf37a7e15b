//! Messages as MessagePack documents and as length-prefixed frames.
//!
//! A frame is a length prefix followed by that many bytes of payload. The
//! prefix spells the length seven bits to a byte, lowest bits first; every
//! byte but the last has its high bit set. No prefix is longer than
//! [`MAX_PREFIX_BYTES`].

use crate::signalr::message::{
    CompletionMessage, CompletionView, InvocationMessage, InvocationView, Message, MessageView,
    ResultKind, UnsupportedMessageKind,
};
use crate::signalr::msgpack::{
    documents_view, msgpack_parse, MsgpackInteger, MsgpackValue, MsgpackView,
};
use crate::signalr::value::msgpack::{value_to_msgpack, values_from_msgpack, values_of_msgpack};
use crate::signalr::value::ValueView;
use vstd::prelude::*;
use vstd::slice::slice_subrange;

verus! {

/// The most bytes that a length prefix may take.
pub const MAX_PREFIX_BYTES: usize = 5;

/// Why a binary frame is no message.
#[derive(Debug, Clone, Copy, PartialEq, Eq, Structural)]
pub enum MsgpackParseError {
    /// The length prefix does not end within [`MAX_PREFIX_BYTES`] bytes.
    FramingError,
    /// The buffer ends before the prefix does, or before the payload that the
    /// prefix announces.
    TruncatedFrame,
    /// The payload is no MessagePack document.
    MalformedPayload,
    /// The document has not the shape of a message: it is no array, an
    /// element is missing, or one is of the wrong type.
    InvalidType,
    /// The type tag is none that can be read from a frame.
    UnrecognizedMessageType,
    /// An argument is a document that no value stands for.
    UnsupportedValueKind,
}

impl MsgpackParseError {
    /// The name of the error.
    pub open spec fn name(self) -> Seq<char> {
        match self {
            MsgpackParseError::FramingError => "FramingError"@,
            MsgpackParseError::TruncatedFrame => "TruncatedFrame"@,
            MsgpackParseError::MalformedPayload => "MalformedPayload"@,
            MsgpackParseError::InvalidType => "InvalidType"@,
            MsgpackParseError::UnrecognizedMessageType => "UnrecognizedMessageType"@,
            MsgpackParseError::UnsupportedValueKind => "UnsupportedValueKind"@,
        }
    }

    /// The error as text: its name.
    pub fn to_string(&self) -> (text: String)
        ensures
            text@ == self.name(),
    {
        match self {
            MsgpackParseError::FramingError => "FramingError".to_owned(),
            MsgpackParseError::TruncatedFrame => "TruncatedFrame".to_owned(),
            MsgpackParseError::MalformedPayload => "MalformedPayload".to_owned(),
            MsgpackParseError::InvalidType => "InvalidType".to_owned(),
            MsgpackParseError::UnrecognizedMessageType => "UnrecognizedMessageType".to_owned(),
            MsgpackParseError::UnsupportedValueKind => "UnsupportedValueKind".to_owned(),
        }
    }
}

/// 128 to the power of `k`: the weight of the `k`-th byte of a prefix.
pub open spec fn weight(k: nat) -> nat
    decreases k,
{
    if k == 0 {
        1
    } else {
        128 * weight((k - 1) as nat)
    }
}

/// The length prefix that spells `n`.
pub open spec fn varint(n: nat) -> Seq<u8>
    decreases n,
{
    if n < 128 {
        seq![n as u8]
    } else {
        seq![(n % 128 + 128) as u8] + varint(n / 128)
    }
}

/// The number that the first `count` bytes spell, each byte giving its low
/// seven bits.
pub open spec fn prefix_value(bytes: Seq<u8>, count: nat) -> nat
    decreases count,
{
    if count == 0 {
        0
    } else {
        prefix_value(bytes, (count - 1) as nat) + (bytes[count - 1] % 128) as nat * weight(
            (count - 1) as nat,
        )
    }
}

/// How many bytes the prefix takes, looking from byte `from` on, all bytes
/// before it having their high bit set: the position after the first byte
/// without it. It fails with `FramingError` where byte `MAX_PREFIX_BYTES` is
/// reached, with `TruncatedFrame` where the bytes end first.
pub open spec fn prefix_len_from(bytes: Seq<u8>, from: nat) -> Result<nat, MsgpackParseError>
    decreases MAX_PREFIX_BYTES - from,
{
    if from >= MAX_PREFIX_BYTES {
        Err(MsgpackParseError::FramingError)
    } else if from >= bytes.len() {
        Err(MsgpackParseError::TruncatedFrame)
    } else if bytes[from as int] < 0x80 {
        Ok(from + 1)
    } else {
        prefix_len_from(bytes, from + 1)
    }
}

/// The length prefix at the start of `bytes`: the number it spells and the
/// bytes it takes.
pub open spec fn parse_prefix(bytes: Seq<u8>) -> Result<(nat, nat), MsgpackParseError> {
    match prefix_len_from(bytes, 0) {
        Ok(used) => Ok((prefix_value(bytes, used), used)),
        Err(e) => Err(e),
    }
}

/// The payload of the frame at the start of `bytes`: the bytes that follow
/// the prefix, as many as it spells. What comes after them is left alone.
pub open spec fn frame_payload(bytes: Seq<u8>) -> Result<Seq<u8>, MsgpackParseError> {
    match parse_prefix(bytes) {
        Ok((length, used)) => if bytes.len() < used + length {
            Err(MsgpackParseError::TruncatedFrame)
        } else {
            Ok(bytes.subrange(used as int, (used + length) as int))
        },
        Err(e) => Err(e),
    }
}

/// The frame that carries `payload`.
pub open spec fn frame_of(payload: Seq<u8>) -> Seq<u8> {
    varint(payload.len()) + payload
}

/// A prefix has at least one byte, and no more than `k` where the number is
/// below 128 to the `k`; from there on it has more.
pub proof fn lemma_varint_len(n: nat, k: nat)
    ensures
        varint(n).len() >= 1,
        k >= 1 && n < weight(k) ==> varint(n).len() <= k,
        n >= weight(k) ==> varint(n).len() > k,
    decreases n,
{
    if k >= 1 {
        lemma_weight_values((k - 1) as nat);
    }
    if n >= 128 {
        assert(varint(n).len() == 1 + varint(n / 128).len());
        lemma_varint_len(n / 128, if k >= 1 {
            (k - 1) as nat
        } else {
            0
        });
    }
}

/// The weights are positive; the first six of them, as numbers.
pub proof fn lemma_weight_values(k: nat)
    ensures
        weight(k) >= 1,
        weight(0) == 1,
        weight(1) == 128,
        weight(2) == 0x4000,
        weight(3) == 0x20_0000,
        weight(4) == 0x1000_0000,
        weight(5) == 0x8_0000_0000,
    decreases k,
{
    reveal_with_fuel(weight, 6);
    if k > 0 {
        lemma_weight_values((k - 1) as nat);
    }
}

/// A prefix is found and read where it stands behind other bytes that all
/// have their high bit set, as long as both together stay within
/// [`MAX_PREFIX_BYTES`]: the scan ends after the prefix, and the prefix adds
/// its number, weighted by where it starts.
proof fn lemma_varint_scan(head: Seq<u8>, n: nat, tail: Seq<u8>)
    requires
        forall|k: int| 0 <= k < head.len() ==> head[k] >= 0x80,
        head.len() + varint(n).len() <= MAX_PREFIX_BYTES,
    ensures
        prefix_len_from(head + varint(n) + tail, head.len()) == Ok::<nat, MsgpackParseError>(
            head.len() + varint(n).len(),
        ),
        prefix_value(head + varint(n) + tail, head.len() + varint(n).len()) == prefix_value(
            head + varint(n) + tail,
            head.len(),
        ) + n * weight(head.len()),
    decreases n,
{
    let all = head + varint(n) + tail;
    let at = head.len();
    lemma_varint_len(n, 0);
    assert(all[at as int] == varint(n)[0]);
    if n < 128 {
        reveal_with_fuel(prefix_value, 2);
        assert(all[at as int] == n as u8);
    } else {
        let first = (n % 128 + 128) as u8;
        let longer = head.push(first);
        assert(varint(n) =~= seq![first] + varint(n / 128));
        assert(longer + varint(n / 128) + tail =~= all);
        lemma_varint_scan(longer, n / 128, tail);
        assert(prefix_value(all, longer.len()) == prefix_value(all, at) + (all[at as int] % 128)
            * weight(at));
        assert(all[at as int] % 128 == n % 128);
        assert(weight(longer.len()) == 128 * weight(at));
        assert(n == (n % 128) + 128 * (n / 128));
        assert((n / 128) * (128 * weight(at)) == (128 * (n / 128)) * weight(at))
            by (nonlinear_arith);
        assert(((n % 128) + 128 * (n / 128)) * weight(at) == (n % 128) * weight(at) + (128 * (n
            / 128)) * weight(at)) by (nonlinear_arith);
    }
}

/// A length below 128 to the fifth comes back from its prefix as it was,
/// whatever bytes follow the prefix.
pub proof fn lemma_varint_round_trip(n: nat, tail: Seq<u8>)
    requires
        n < weight(MAX_PREFIX_BYTES as nat),
    ensures
        parse_prefix(varint(n) + tail) == Ok::<(nat, nat), MsgpackParseError>(
            (n, varint(n).len()),
        ),
{
    lemma_varint_len(n, MAX_PREFIX_BYTES as nat);
    let head = Seq::<u8>::empty();
    let all = varint(n) + tail;
    assert(head + varint(n) + tail =~= all);
    lemma_varint_scan(head, n, tail);
    assert(prefix_len_from(all, 0) == Ok::<nat, MsgpackParseError>(varint(n).len()));
    assert(prefix_value(all, 0) == 0);
    assert(n * weight(0) == n) by (nonlinear_arith)
        requires
            weight(0) == 1,
    ;
}

/// A prefix of more than [`MAX_PREFIX_BYTES`] bytes is turned down: where the
/// first five bytes all have their high bit set, there is no prefix.
pub proof fn lemma_long_prefix_rejected(bytes: Seq<u8>)
    requires
        bytes.len() >= MAX_PREFIX_BYTES,
        forall|k: int| 0 <= k < MAX_PREFIX_BYTES ==> bytes[k] >= 0x80,
    ensures
        parse_prefix(bytes) == Err::<(nat, nat), MsgpackParseError>(
            MsgpackParseError::FramingError,
        ),
        frame_payload(bytes) == Err::<Seq<u8>, MsgpackParseError>(MsgpackParseError::FramingError),
{
    reveal_with_fuel(prefix_len_from, 6);
}

/// In a prefix every byte but the last has its high bit set, and the last has
/// not.
pub proof fn lemma_varint_high_bits(n: nat)
    ensures
        forall|i: int| 0 <= i < varint(n).len() - 1 ==> varint(n)[i] >= 0x80,
        varint(n).last() < 0x80,
    decreases n,
{
    if n >= 128 {
        lemma_varint_high_bits(n / 128);
        lemma_varint_len(n / 128, 0);
        let rest = varint(n / 128);
        assert forall|i: int| 0 <= i < varint(n).len() - 1 implies varint(n)[i] >= 0x80 by {
            if i > 0 {
                assert(varint(n)[i] == rest[i - 1]);
            }
        }
        assert(varint(n).last() == rest.last());
    }
}

/// A length of 128 to the fifth or more does not come back: its prefix has
/// more than [`MAX_PREFIX_BYTES`] bytes, and is turned down.
pub proof fn lemma_oversized_length_rejected(n: nat, tail: Seq<u8>)
    requires
        n >= weight(MAX_PREFIX_BYTES as nat),
    ensures
        parse_prefix(varint(n) + tail) == Err::<(nat, nat), MsgpackParseError>(
            MsgpackParseError::FramingError,
        ),
{
    lemma_varint_len(n, MAX_PREFIX_BYTES as nat);
    lemma_varint_high_bits(n);
    let all = varint(n) + tail;
    assert forall|k: int| 0 <= k < MAX_PREFIX_BYTES implies all[k] >= 0x80 by {
        assert(all[k] == varint(n)[k]);
    }
    lemma_long_prefix_rejected(all);
}

/// A payload whose length fits a prefix comes back from its frame as it was,
/// whatever bytes follow the frame.
pub proof fn lemma_frame_round_trip(payload: Seq<u8>, tail: Seq<u8>)
    requires
        payload.len() < weight(MAX_PREFIX_BYTES as nat),
    ensures
        frame_payload(frame_of(payload) + tail) == Ok::<Seq<u8>, MsgpackParseError>(payload),
{
    let prefix = varint(payload.len());
    lemma_varint_round_trip(payload.len(), payload + tail);
    assert(prefix + (payload + tail) =~= frame_of(payload) + tail);
    assert((frame_of(payload) + tail).subrange(
        prefix.len() as int,
        (prefix.len() + payload.len()) as int,
    ) =~= payload);
}

/// The payload of the frame at the start of `buf`.
pub fn parse_message_with_length(buf: &[u8]) -> (r: Result<&[u8], MsgpackParseError>)
    ensures
        match r {
            Ok(payload) => frame_payload(buf@) == Ok::<Seq<u8>, MsgpackParseError>(payload@),
            Err(e) => frame_payload(buf@) == Err::<Seq<u8>, MsgpackParseError>(e),
        },
{
    let mut length: u64 = 0;
    let mut unit: u64 = 1;
    let mut i: usize = 0;
    while i < MAX_PREFIX_BYTES
        invariant
            i <= MAX_PREFIX_BYTES,
            i <= buf@.len(),
            prefix_len_from(buf@, 0) == prefix_len_from(buf@, i as nat),
            length == prefix_value(buf@, i as nat),
            unit == weight(i as nat),
            length < unit,
        decreases MAX_PREFIX_BYTES - i,
    {
        if i >= buf.len() {
            return Err(MsgpackParseError::TruncatedFrame);
        }
        let byte: u8 = buf[i];
        let low: u8 = byte & 0x7F;
        assert(low == byte % 128 && low < 128) by (bit_vector)
            requires
                low == byte & 0x7F,
        ;
        assert((byte & 0x80 == 0) == (byte < 0x80)) by (bit_vector);
        proof {
            lemma_weight_values(i as nat);
            assert(weight((i + 1) as nat) == 128 * weight(i as nat));
            assert(low * unit + length < 128 * unit) by (nonlinear_arith)
                requires
                    low < 128,
                    length < unit,
            ;
        }
        length = length + (low as u64) * unit;
        if (byte & 0x80) == 0 {
            let used: usize = i + 1;
            if ((buf.len() - used) as u64) < length {
                return Err(MsgpackParseError::TruncatedFrame);
            }
            let end: usize = used + length as usize;
            return Ok(slice_subrange(buf, used, end));
        }
        unit = unit * 128;
        i = i + 1;
    }
    Err(MsgpackParseError::FramingError)
}

/// The length prefix that spells `n`.
pub fn serialize_varint(n: usize) -> (prefix: Vec<u8>)
    ensures
        prefix@ == varint(n as nat),
{
    let mut prefix: Vec<u8> = Vec::new();
    let mut rest: usize = n;
    while rest >= 128
        invariant
            varint(n as nat) == prefix@ + varint(rest as nat),
        decreases rest,
    {
        let low: u8 = (rest & 0x7F) as u8;
        assert(low == rest % 128 && low < 128) by (bit_vector)
            requires
                low == (rest & 0x7F) as u8,
        ;
        assert(rest >> 7 == rest / 128) by (bit_vector);
        assert(low | 0x80 == low + 128) by (bit_vector)
            requires
                low < 128,
        ;
        assert(prefix@ + (seq![(rest % 128 + 128) as u8] + varint((rest / 128) as nat))
            =~= prefix@.push(low | 0x80) + varint((rest / 128) as nat));
        prefix.push(low | 0x80);
        rest = rest >> 7;
    }
    assert(prefix@ + seq![rest as u8] =~= prefix@.push(rest as u8));
    prefix.push(rest as u8);
    prefix
}

/// The frame that carries `payload`: the prefix that spells its length, then
/// the payload.
pub fn frame(payload: &[u8]) -> (framed: Vec<u8>)
    ensures
        framed@ == frame_of(payload@),
{
    let mut framed = serialize_varint(payload.len());
    let mut i: usize = 0;
    while i < payload.len()
        invariant
            i <= payload.len(),
            framed@ == varint(payload@.len()) + payload@.subrange(0, i as int),
        decreases payload.len() - i,
    {
        framed.push(payload[i]);
        assert(payload@.subrange(0, i as int).push(payload@[i as int]) =~= payload@.subrange(
            0,
            i + 1,
        ));
        i = i + 1;
    }
    assert(payload@.subrange(0, i as int) =~= payload@);
    framed
}

/// The type tag of an invocation.
pub const INVOCATION_TAG: u64 = 1;

/// The type tag of a completion.
pub const COMPLETION_TAG: u64 = 3;

/// The type tag of a ping.
pub const PING_TAG: u64 = 6;

/// The document that is a type tag or a result kind.
pub open spec fn tag_document(tag: u64) -> MsgpackView {
    MsgpackView::Integer(MsgpackInteger::PosInt(tag))
}

/// What a completion carries after its result kind: the error text, nothing,
/// or the result.
pub open spec fn completion_payload(completion: CompletionView) -> MsgpackView {
    match completion.result_kind() {
        ResultKind::Error => MsgpackView::String(completion.error->0),
        ResultKind::Void => MsgpackView::Nil,
        ResultKind::NonVoid => value_to_msgpack(completion.result->0),
    }
}

/// The document that is sent for a message: for a completion the array of the
/// tag, no headers, the invocation id, the result kind and the payload; for a
/// ping the array of the tag alone. No other kind is sent.
pub open spec fn message_to_msgpack(message: MessageView) -> Result<
    MsgpackView,
    UnsupportedMessageKind,
> {
    match message {
        MessageView::Completion(completion) => Ok(
            MsgpackView::Array(
                seq![
                    tag_document(COMPLETION_TAG),
                    MsgpackView::Mapping(Seq::empty()),
                    MsgpackView::String(completion.invocation_id),
                    tag_document(completion.result_kind().spec_wire()),
                    completion_payload(completion),
                ],
            ),
        ),
        MessageView::Ping => Ok(MsgpackView::Array(seq![tag_document(PING_TAG)])),
        _ => Err(UnsupportedMessageKind),
    }
}

/// The invocation that an array stands for whose first element is the
/// invocation tag: after the tag come the headers, which are not looked at,
/// the invocation id (nil or a string), the target (a string) and the
/// arguments (an array).
pub open spec fn invocation_from_msgpack(items: Seq<MsgpackView>) -> Result<
    MessageView,
    MsgpackParseError,
> {
    if items.len() < 5 {
        Err(MsgpackParseError::InvalidType)
    } else if !(items[2] is Nil || items[2] is String) {
        Err(MsgpackParseError::InvalidType)
    } else if !(items[3] is String) {
        Err(MsgpackParseError::InvalidType)
    } else {
        match items[4] {
            MsgpackView::Array(arguments) => match values_from_msgpack(arguments) {
                Some(values) => Ok(
                    MessageView::Invocation(
                        InvocationView {
                            invocation_id: match items[2] {
                                MsgpackView::String(id) => Some(id),
                                _ => None,
                            },
                            target: items[3]->String_0,
                            arguments: values,
                        },
                    ),
                ),
                None => Err(MsgpackParseError::UnsupportedValueKind),
            },
            _ => Err(MsgpackParseError::InvalidType),
        }
    }
}

/// The message that a document stands for: an array whose first element is an
/// integer, the type tag. Only invocations and pings are read; elements beyond
/// those of the message are not looked at.
pub open spec fn message_from_msgpack(document: MsgpackView) -> Result<
    MessageView,
    MsgpackParseError,
> {
    match document {
        MsgpackView::Array(items) => if items.len() == 0 {
            Err(MsgpackParseError::InvalidType)
        } else {
            match items[0] {
                MsgpackView::Integer(tag) => if tag.spec_as_u64() == Some(INVOCATION_TAG) {
                    invocation_from_msgpack(items)
                } else if tag.spec_as_u64() == Some(PING_TAG) {
                    Ok(MessageView::Ping)
                } else {
                    Err(MsgpackParseError::UnrecognizedMessageType)
                },
                _ => Err(MsgpackParseError::InvalidType),
            }
        },
        _ => Err(MsgpackParseError::InvalidType),
    }
}

/// The message in the frame at the start of `bytes`.
pub open spec fn message_from_frame(bytes: Seq<u8>) -> Result<MessageView, MsgpackParseError> {
    match frame_payload(bytes) {
        Ok(payload) => match msgpack_parse(payload) {
            Some(document) => message_from_msgpack(document),
            None => Err(MsgpackParseError::MalformedPayload),
        },
        Err(e) => Err(e),
    }
}

/// What is sent in a frame is read from it: a payload whose length fits a
/// prefix is decoded as if it had been handed over unframed, whatever bytes
/// follow the frame.
pub proof fn lemma_framed_payload_is_read(payload: Seq<u8>, tail: Seq<u8>)
    requires
        payload.len() < weight(MAX_PREFIX_BYTES as nat),
    ensures
        message_from_frame(frame_of(payload) + tail) == match msgpack_parse(payload) {
            Some(document) => message_from_msgpack(document),
            None => Err(MsgpackParseError::MalformedPayload),
        },
{
    lemma_frame_round_trip(payload, tail);
}

/// The result kind of a completion is on the wire as its own element: one
/// with an error, whatever the result; two with neither; three with a result
/// and no error. A null result goes out as three with a nil payload, and so
/// differs from no result, which goes out as two.
pub proof fn lemma_completion_discriminant(completion: CompletionView)
    ensures
        message_to_msgpack(MessageView::Completion(completion)) is Ok,
        message_to_msgpack(MessageView::Completion(completion))->Ok_0 is Array,
        ({
            let sent = message_to_msgpack(MessageView::Completion(completion))->Ok_0->Array_0;
            &&& sent.len() == 5
            &&& completion.error is Some ==> sent[3] == tag_document(1) && sent[4]
                == MsgpackView::String(completion.error->0)
            &&& completion.error is None && completion.result is None ==> sent[3] == tag_document(2)
                && sent[4] == MsgpackView::Nil
            &&& completion.error is None && completion.result is Some ==> sent[3] == tag_document(3)
                && sent[4] == value_to_msgpack(completion.result->0)
            &&& completion.error is None && completion.result == Some(ValueView::Null) ==> sent[4]
                == MsgpackView::Nil
        }),
{
}

/// The document that is sent for a message. Only a completion and a ping have
/// one.
pub fn serialize_message(message: &Message) -> (r: Result<MsgpackValue, UnsupportedMessageKind>)
    ensures
        match r {
            Ok(document) => message_to_msgpack(message@) == Ok::<
                MsgpackView,
                UnsupportedMessageKind,
            >(document@),
            Err(e) => message_to_msgpack(message@) == Err::<MsgpackView, UnsupportedMessageKind>(e),
        },
{
    match message {
        Message::Completion(completion) => {
            let kind = completion.result_kind();
            let payload = match kind {
                ResultKind::Error => match &completion.error {
                    Some(text) => MsgpackValue::String(text.clone()),
                    None => MsgpackValue::Nil,
                },
                ResultKind::Void => MsgpackValue::Nil,
                ResultKind::NonVoid => match &completion.result {
                    Some(value) => value.to_msgpack(),
                    None => MsgpackValue::Nil,
                },
            };
            let mut items: Vec<MsgpackValue> = Vec::new();
            items.push(MsgpackValue::Integer(MsgpackInteger::PosInt(COMPLETION_TAG)));
            items.push(MsgpackValue::Mapping(Vec::new()));
            items.push(MsgpackValue::String(completion.invocation_id.clone()));
            items.push(MsgpackValue::Integer(MsgpackInteger::PosInt(kind.wire())));
            items.push(payload);
            let document = MsgpackValue::Array(items);
            proof {
                reveal_with_fuel(MsgpackValue::tree, 2);
                assert(items@[1]@->Mapping_0 =~= Seq::empty());
                assert(document@->Array_0 =~= message_to_msgpack(message@)->Ok_0->Array_0);
            }
            Ok(document)
        },
        Message::Ping => {
            let mut items: Vec<MsgpackValue> = Vec::new();
            items.push(MsgpackValue::Integer(MsgpackInteger::PosInt(PING_TAG)));
            let document = MsgpackValue::Array(items);
            proof {
                reveal_with_fuel(MsgpackValue::tree, 2);
                assert(document@->Array_0 =~= message_to_msgpack(message@)->Ok_0->Array_0);
            }
            Ok(document)
        },
        _ => Err(UnsupportedMessageKind),
    }
}

/// The invocation that an array stands for whose first element is the
/// invocation tag.
fn deserialize_invocation(items: &Vec<MsgpackValue>) -> (r: Result<Message, MsgpackParseError>)
    ensures
        match r {
            Ok(message) => invocation_from_msgpack(documents_view(items@)) == Ok::<
                MessageView,
                MsgpackParseError,
            >(message@),
            Err(e) => invocation_from_msgpack(documents_view(items@)) == Err::<
                MessageView,
                MsgpackParseError,
            >(e),
        },
{
    if items.len() < 5 {
        return Err(MsgpackParseError::InvalidType);
    }
    proof {
        assert(documents_view(items@)[2] == items@[2]@);
        assert(documents_view(items@)[3] == items@[3]@);
        assert(documents_view(items@)[4] == items@[4]@);
    }
    let invocation_id = match &items[2] {
        MsgpackValue::Nil => None,
        MsgpackValue::String(id) => Some(id.clone()),
        _ => {
            return Err(MsgpackParseError::InvalidType);
        },
    };
    let target = match &items[3] {
        MsgpackValue::String(target) => target.clone(),
        _ => {
            return Err(MsgpackParseError::InvalidType);
        },
    };
    let arguments = match &items[4] {
        MsgpackValue::Array(arguments) => {
            assert(items@[4]@->Array_0 =~= documents_view(arguments@));
            match values_of_msgpack(arguments) {
                Ok(values) => values,
                Err(_) => {
                    return Err(MsgpackParseError::UnsupportedValueKind);
                },
            }
        },
        _ => {
            return Err(MsgpackParseError::InvalidType);
        },
    };
    Ok(Message::Invocation(InvocationMessage { invocation_id, target, arguments }))
}

/// The message that a document stands for.
pub fn deserialize_document(document: &MsgpackValue) -> (r: Result<Message, MsgpackParseError>)
    ensures
        match r {
            Ok(message) => message_from_msgpack(document@) == Ok::<MessageView, MsgpackParseError>(
                message@,
            ),
            Err(e) => message_from_msgpack(document@) == Err::<MessageView, MsgpackParseError>(e),
        },
{
    match document {
        MsgpackValue::Array(items) => {
            if items.len() == 0 {
                return Err(MsgpackParseError::InvalidType);
            }
            proof {
                assert(document@->Array_0 =~= documents_view(items@));
                assert(documents_view(items@)[0] == items@[0]@);
            }
            match &items[0] {
                MsgpackValue::Integer(tag) => match tag.as_u64() {
                    Some(n) => if n == INVOCATION_TAG {
                        deserialize_invocation(items)
                    } else if n == PING_TAG {
                        Ok(Message::Ping)
                    } else {
                        Err(MsgpackParseError::UnrecognizedMessageType)
                    },
                    None => Err(MsgpackParseError::UnrecognizedMessageType),
                },
                _ => Err(MsgpackParseError::InvalidType),
            }
        },
        _ => Err(MsgpackParseError::InvalidType),
    }
}

/// The message in the frame at the start of `buf`: the frame is opened, its
/// payload decoded, and the document read as a message.
pub fn deserialize_message(buf: &[u8]) -> (r: Result<Message, MsgpackParseError>)
    ensures
        match r {
            Ok(message) => message_from_frame(buf@) == Ok::<MessageView, MsgpackParseError>(
                message@,
            ),
            Err(e) => message_from_frame(buf@) == Err::<MessageView, MsgpackParseError>(e),
        },
{
    let payload = match parse_message_with_length(buf) {
        Ok(payload) => payload,
        Err(e) => {
            return Err(e);
        },
    };
    match MsgpackValue::decode(payload) {
        Some(document) => deserialize_document(&document),
        None => Err(MsgpackParseError::MalformedPayload),
    }
}

} // verus!
