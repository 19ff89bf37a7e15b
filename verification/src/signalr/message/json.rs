//! Messages as JSON documents and as text frames.
//!
//! A message is one JSON object with a numeric `type` member; a frame is the
//! text of that object followed by the record separator.

use crate::signalr::entries::member_index;
use crate::signalr::json::{documents_view, json_parse, JsonNumber, JsonValue, JsonView};
use crate::signalr::message::{
    CompletionView, InvocationMessage, InvocationView, Message, MessageView, ResultKind,
    UnsupportedMessageKind,
};
use crate::signalr::text::{frame_text, text_of_frame};
use crate::signalr::value::json::{
    lemma_json_row_round_trip, value_to_json, values_as_json, values_from_json, values_of_json,
    values_to_json,
};
use vstd::prelude::*;

verus! {

/// The `type` of an invocation.
pub const INVOCATION_TYPE: u64 = 1;

/// The `type` of a completion.
pub const COMPLETION_TYPE: u64 = 3;

/// The `type` of a ping.
pub const PING_TYPE: u64 = 6;

/// Why a text frame is no message.
#[derive(Debug, Clone, Copy, PartialEq, Eq, Structural)]
pub enum JsonParseError {
    /// The frame does not end in the record separator, or what stands before
    /// it is not UTF-8 or not JSON.
    Malformed,
    /// The document is no object with a `type`, or an invocation lacks its
    /// `target` or `arguments`.
    MissingField,
    /// The `type` is no unsigned integer, the `target` no string, or the
    /// `arguments` no array.
    InvalidType,
    /// The `type` is none that can be read from a frame.
    UnrecognizedMessageType,
    /// An argument is a document that no value stands for.
    UnsupportedValueKind,
}

/// The member that carries the `type`.
pub open spec fn type_member(tag: u64) -> (Seq<char>, JsonView) {
    ("type"@, JsonView::Number(JsonNumber::PosInt(tag)))
}

/// The members that a completion has beyond `type` and `invocationId`: an
/// `error` where it failed, a `result` where it returned one, and else none.
pub open spec fn completion_members(completion: CompletionView) -> Seq<(Seq<char>, JsonView)> {
    match completion.result_kind() {
        ResultKind::Error => seq![("error"@, JsonView::String(completion.error->0))],
        ResultKind::Void => Seq::empty(),
        ResultKind::NonVoid => seq![("result"@, value_to_json(completion.result->0))],
    }
}

/// The object that is sent for a message. Only an invocation, a completion
/// and a ping have one.
pub open spec fn message_to_json(message: MessageView) -> Result<
    JsonView,
    UnsupportedMessageKind,
> {
    match message {
        MessageView::Invocation(invocation) => Ok(
            JsonView::Object(
                seq![
                    type_member(INVOCATION_TYPE),
                    (
                        "invocationId"@,
                        match invocation.invocation_id {
                            Some(id) => JsonView::String(id),
                            None => JsonView::Null,
                        },
                    ),
                    ("target"@, JsonView::String(invocation.target)),
                    ("arguments"@, JsonView::Array(values_to_json(invocation.arguments))),
                ],
            ),
        ),
        MessageView::Completion(completion) => Ok(
            JsonView::Object(
                seq![
                    type_member(COMPLETION_TYPE),
                    ("invocationId"@, JsonView::String(completion.invocation_id)),
                ] + completion_members(completion),
            ),
        ),
        MessageView::Ping => Ok(JsonView::Object(seq![type_member(PING_TYPE)])),
        _ => Err(UnsupportedMessageKind),
    }
}

/// The `type` of a document: the member of that name, which is an unsigned
/// integer.
pub open spec fn type_from_json(document: JsonView) -> Result<u64, JsonParseError> {
    match document.get("type"@) {
        Some(JsonView::Number(n)) => match n.spec_as_u64() {
            Some(tag) => Ok(tag),
            None => Err(JsonParseError::InvalidType),
        },
        Some(_) => Err(JsonParseError::InvalidType),
        None => Err(JsonParseError::MissingField),
    }
}

/// The invocation that an object stands for: its `arguments`, an array, are
/// looked at first, then its `target`, a string. An `invocationId` that is
/// missing or no string means that there is none.
pub open spec fn invocation_from_json(document: JsonView) -> Result<MessageView, JsonParseError> {
    match document.get("arguments"@) {
        Some(JsonView::Array(items)) => match values_from_json(items) {
            Some(arguments) => match document.get("target"@) {
                Some(JsonView::String(target)) => Ok(
                    MessageView::Invocation(
                        InvocationView {
                            invocation_id: match document.get("invocationId"@) {
                                Some(JsonView::String(id)) => Some(id),
                                _ => None,
                            },
                            target,
                            arguments,
                        },
                    ),
                ),
                Some(_) => Err(JsonParseError::InvalidType),
                None => Err(JsonParseError::MissingField),
            },
            None => Err(JsonParseError::UnsupportedValueKind),
        },
        Some(_) => Err(JsonParseError::InvalidType),
        None => Err(JsonParseError::MissingField),
    }
}

/// The message that a document stands for. Only invocations and pings are
/// read.
pub open spec fn message_from_json(document: JsonView) -> Result<MessageView, JsonParseError> {
    match type_from_json(document) {
        Ok(tag) => if tag == INVOCATION_TYPE {
            invocation_from_json(document)
        } else if tag == PING_TYPE {
            Ok(MessageView::Ping)
        } else {
            Err(JsonParseError::UnrecognizedMessageType)
        },
        Err(e) => Err(e),
    }
}

/// The message in a text frame.
pub open spec fn message_from_frame(frame: Seq<u8>) -> Result<MessageView, JsonParseError> {
    match frame_text(frame) {
        Some(text) => match json_parse(text) {
            Some(document) => message_from_json(document),
            None => Err(JsonParseError::Malformed),
        },
        None => Err(JsonParseError::Malformed),
    }
}

/// A completion goes out with an `error` and no `result` where it failed,
/// with a `result` and no `error` where it returned one, and with neither
/// where it returned nothing.
pub proof fn lemma_completion_members(completion: CompletionView)
    ensures
        message_to_json(MessageView::Completion(completion)) is Ok,
        ({
            let sent = message_to_json(MessageView::Completion(completion))->Ok_0;
            &&& sent is Object
            &&& sent.get("type"@) == Some(JsonView::Number(JsonNumber::PosInt(3)))
            &&& sent.get("invocationId"@) == Some(JsonView::String(completion.invocation_id))
            &&& sent.get("error"@) == match completion.error {
                Some(text) => Some(JsonView::String(text)),
                None => None,
            }
            &&& sent.get("result"@) == match completion.result {
                Some(value) => if completion.error is Some {
                    None
                } else {
                    Some(value_to_json(value))
                },
                None => None,
            }
        }),
{
    reveal_strlit("type");
    reveal_strlit("invocationId");
    reveal_strlit("error");
    reveal_strlit("result");
    reveal_with_fuel(member_index, 4);
    let members = message_to_json(MessageView::Completion(completion))->Ok_0->Object_0;
    assert("type"@.len() == 4 && "invocationId"@.len() == 12 && "error"@.len() == 5
        && "result"@.len() == 6);
    assert(members[0].0 == "type"@ && members[1].0 == "invocationId"@);
    match completion.result_kind() {
        ResultKind::Error => {
            assert(members.len() == 3 && members[2].0 == "error"@);
            assert(members.drop_last().len() == 2);
            assert(members.drop_last().drop_last().len() == 1);
        },
        ResultKind::Void => {
            assert(members.len() == 2);
            assert(members.drop_last().len() == 1);
        },
        ResultKind::NonVoid => {
            assert(members.len() == 3 && members[2].0 == "result"@);
            assert(members.drop_last().len() == 2);
            assert(members.drop_last().drop_last().len() == 1);
        },
    }
}

/// An invocation or a ping that went out as a document is read back from it as
/// it was.
pub proof fn lemma_json_message_round_trip(message: MessageView)
    requires
        message is Invocation || message is Ping,
    ensures
        message_to_json(message) is Ok,
        message_from_json(message_to_json(message)->Ok_0) == Ok::<MessageView, JsonParseError>(
            message,
        ),
{
    reveal_strlit("type");
    reveal_strlit("invocationId");
    reveal_strlit("target");
    reveal_strlit("arguments");
    reveal_with_fuel(member_index, 5);
    let sent = message_to_json(message)->Ok_0;
    let members = sent->Object_0;
    assert("type"@.len() == 4 && "invocationId"@.len() == 12 && "target"@.len() == 6
        && "arguments"@.len() == 9);
    match message {
        MessageView::Invocation(invocation) => {
            assert(members.len() == 4);
            assert(members[0].0 == "type"@ && members[1].0 == "invocationId"@ && members[2].0
                == "target"@ && members[3].0 == "arguments"@);
            let shorter = members.drop_last();
            let shortest = shorter.drop_last();
            let single = shortest.drop_last();
            assert(shorter.len() == 3 && shortest.len() == 2 && single.len() == 1);
            assert(sent.get("arguments"@) == Some(members[3].1));
            assert(sent.get("target"@) == Some(members[2].1));
            assert(sent.get("invocationId"@) == Some(members[1].1));
            assert(sent.get("type"@) == Some(members[0].1));
            lemma_json_row_round_trip(invocation.arguments);
        },
        _ => {
            assert(members.len() == 1 && members[0].0 == "type"@);
        },
    }
}

impl Message {
    /// The object that is sent for this message. Only an invocation, a
    /// completion and a ping have one.
    pub fn serialize(&self) -> (r: Result<JsonValue, UnsupportedMessageKind>)
        ensures
            match r {
                Ok(document) => message_to_json(self@) == Ok::<JsonView, UnsupportedMessageKind>(
                    document@,
                ),
                Err(e) => message_to_json(self@) == Err::<JsonView, UnsupportedMessageKind>(e),
            },
    {
        let mut members: Vec<(String, JsonValue)> = Vec::new();
        match self {
            Message::Invocation(invocation) => {
                members.push(
                    ("type".to_owned(), JsonValue::Number(JsonNumber::PosInt(INVOCATION_TYPE))),
                );
                members.push(
                    (
                        "invocationId".to_owned(),
                        match &invocation.invocation_id {
                            Some(id) => JsonValue::String(id.clone()),
                            None => JsonValue::Null,
                        },
                    ),
                );
                members.push(("target".to_owned(), JsonValue::String(invocation.target.clone())));
                let arguments = values_as_json(&invocation.arguments);
                members.push(("arguments".to_owned(), JsonValue::Array(arguments)));
                let document = JsonValue::Object(members);
                proof {
                    reveal_with_fuel(JsonValue::tree, 2);
                    assert(members@[3].1@->Array_0 =~= documents_view(arguments@));
                    assert(document@->Object_0 =~= message_to_json(self@)->Ok_0->Object_0);
                }
                Ok(document)
            },
            Message::Completion(completion) => {
                members.push(
                    ("type".to_owned(), JsonValue::Number(JsonNumber::PosInt(COMPLETION_TYPE))),
                );
                members.push(
                    (
                        "invocationId".to_owned(),
                        JsonValue::String(completion.invocation_id.clone()),
                    ),
                );
                match completion.result_kind() {
                    ResultKind::Error => match &completion.error {
                        Some(text) => members.push(
                            ("error".to_owned(), JsonValue::String(text.clone())),
                        ),
                        None => {},
                    },
                    ResultKind::Void => {},
                    ResultKind::NonVoid => match &completion.result {
                        Some(value) => members.push(("result".to_owned(), value.to_json())),
                        None => {},
                    },
                }
                let document = JsonValue::Object(members);
                proof {
                    reveal_with_fuel(JsonValue::tree, 2);
                    assert(document@->Object_0 =~= message_to_json(self@)->Ok_0->Object_0);
                }
                Ok(document)
            },
            Message::Ping => {
                members.push(("type".to_owned(), JsonValue::Number(JsonNumber::PosInt(PING_TYPE))));
                let document = JsonValue::Object(members);
                proof {
                    reveal_with_fuel(JsonValue::tree, 2);
                    assert(document@->Object_0 =~= message_to_json(self@)->Ok_0->Object_0);
                }
                Ok(document)
            },
            _ => Err(UnsupportedMessageKind),
        }
    }

    /// The message that a document stands for. Only invocations and pings are
    /// read.
    pub fn deserialize(document: &JsonValue) -> (r: Result<Message, JsonParseError>)
        ensures
            match r {
                Ok(message) => message_from_json(document@) == Ok::<MessageView, JsonParseError>(
                    message@,
                ),
                Err(e) => message_from_json(document@) == Err::<MessageView, JsonParseError>(e),
            },
    {
        let tag = match document.get("type") {
            Some(JsonValue::Number(n)) => match n.as_u64() {
                Some(tag) => tag,
                None => {
                    return Err(JsonParseError::InvalidType);
                },
            },
            Some(_) => {
                return Err(JsonParseError::InvalidType);
            },
            None => {
                return Err(JsonParseError::MissingField);
            },
        };
        if tag == INVOCATION_TYPE {
            let arguments = match document.get("arguments") {
                Some(JsonValue::Array(items)) => {
                    assert(document@.get("arguments"@)->0->Array_0 =~= documents_view(items@));
                    match values_of_json(items) {
                        Ok(values) => values,
                        Err(_) => {
                            return Err(JsonParseError::UnsupportedValueKind);
                        },
                    }
                },
                Some(_) => {
                    return Err(JsonParseError::InvalidType);
                },
                None => {
                    return Err(JsonParseError::MissingField);
                },
            };
            let target = match document.get("target") {
                Some(JsonValue::String(target)) => target.clone(),
                Some(_) => {
                    return Err(JsonParseError::InvalidType);
                },
                None => {
                    return Err(JsonParseError::MissingField);
                },
            };
            let invocation_id = match document.get("invocationId") {
                Some(JsonValue::String(id)) => Some(id.clone()),
                _ => None,
            };
            Ok(Message::Invocation(InvocationMessage { invocation_id, target, arguments }))
        } else if tag == PING_TYPE {
            Ok(Message::Ping)
        } else {
            Err(JsonParseError::UnrecognizedMessageType)
        }
    }

    /// The message in a text frame: the text before the record separator is
    /// parsed as JSON, and the document read as a message.
    pub fn deserialize_frame(frame: &[u8]) -> (r: Result<Message, JsonParseError>)
        ensures
            match r {
                Ok(message) => message_from_frame(frame@) == Ok::<MessageView, JsonParseError>(
                    message@,
                ),
                Err(e) => message_from_frame(frame@) == Err::<MessageView, JsonParseError>(e),
            },
    {
        let text = match text_of_frame(frame) {
            Some(text) => text,
            None => {
                return Err(JsonParseError::Malformed);
            },
        };
        match JsonValue::parse(text) {
            Some(document) => Message::deserialize(&document),
            None => Err(JsonParseError::Malformed),
        }
    }
}

} // verus!
