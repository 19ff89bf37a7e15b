//! The messages of the protocol, whatever the codec.

use crate::signalr::value::{values_view, SignalRValue, ValueView};
use vstd::prelude::*;

pub mod json;
pub mod msgpack;

verus! {

/// A protocol message. Only `Invocation`, `Completion` and `Ping` have a wire
/// form here; the other kinds are named so that they can be told apart, and
/// neither codec reads or writes them.
#[derive(Debug, PartialEq)]
pub enum Message {
    Close,
    Invocation(InvocationMessage),
    StreamInvocation,
    StreamItem,
    Completion(CompletionMessage),
    CancelInvocation,
    Ping,
    Ack,
    Sequence,
}

/// A remote call. One without an `invocation_id` expects no reply.
#[derive(Debug, PartialEq)]
pub struct InvocationMessage {
    pub invocation_id: Option<String>,
    pub target: String,
    pub arguments: Vec<SignalRValue>,
}

/// The reply that ends an invocation: an error, a result, or neither.
#[derive(Debug, PartialEq)]
pub struct CompletionMessage {
    pub invocation_id: String,
    pub result: Option<SignalRValue>,
    pub error: Option<String>,
}

/// A message of a kind that has no wire form.
#[derive(Debug, Clone, Copy, PartialEq, Eq, Structural)]
pub struct UnsupportedMessageKind;

/// Which of its three wire shapes a completion takes.
#[derive(Debug, Clone, Copy, PartialEq, Eq, Structural)]
pub enum ResultKind {
    /// The invocation failed; the payload is the error text.
    Error,
    /// The invocation succeeded and returned nothing.
    Void,
    /// The invocation succeeded; the payload is its result, which may be null.
    NonVoid,
}

/// The mathematical form of an [`InvocationMessage`].
pub struct InvocationView {
    pub invocation_id: Option<Seq<char>>,
    pub target: Seq<char>,
    pub arguments: Seq<ValueView>,
}

/// The mathematical form of a [`CompletionMessage`].
pub struct CompletionView {
    pub invocation_id: Seq<char>,
    pub result: Option<ValueView>,
    pub error: Option<Seq<char>>,
}

/// The mathematical form of a [`Message`].
pub enum MessageView {
    Close,
    Invocation(InvocationView),
    StreamInvocation,
    StreamItem,
    Completion(CompletionView),
    CancelInvocation,
    Ping,
    Ack,
    Sequence,
}

impl View for InvocationMessage {
    type V = InvocationView;

    open spec fn view(&self) -> InvocationView {
        InvocationView {
            invocation_id: match self.invocation_id {
                Some(id) => Some(id@),
                None => None,
            },
            target: self.target@,
            arguments: values_view(self.arguments@),
        }
    }
}

impl View for CompletionMessage {
    type V = CompletionView;

    open spec fn view(&self) -> CompletionView {
        CompletionView {
            invocation_id: self.invocation_id@,
            result: match self.result {
                Some(value) => Some(value@),
                None => None,
            },
            error: match self.error {
                Some(text) => Some(text@),
                None => None,
            },
        }
    }
}

impl View for Message {
    type V = MessageView;

    open spec fn view(&self) -> MessageView {
        match self {
            Message::Close => MessageView::Close,
            Message::Invocation(invocation) => MessageView::Invocation(invocation@),
            Message::StreamInvocation => MessageView::StreamInvocation,
            Message::StreamItem => MessageView::StreamItem,
            Message::Completion(completion) => MessageView::Completion(completion@),
            Message::CancelInvocation => MessageView::CancelInvocation,
            Message::Ping => MessageView::Ping,
            Message::Ack => MessageView::Ack,
            Message::Sequence => MessageView::Sequence,
        }
    }
}

impl ResultKind {
    /// The number that stands for the kind on the wire.
    pub open spec fn spec_wire(self) -> u64 {
        match self {
            ResultKind::Error => 1,
            ResultKind::Void => 2,
            ResultKind::NonVoid => 3,
        }
    }

    /// The number that stands for the kind on the wire.
    #[verifier::when_used_as_spec(spec_wire)]
    pub fn wire(self) -> (n: u64)
        ensures
            n == self.spec_wire(),
    {
        match self {
            ResultKind::Error => 1,
            ResultKind::Void => 2,
            ResultKind::NonVoid => 3,
        }
    }
}

impl CompletionView {
    /// A completion carries an error or a result, never both.
    pub open spec fn well_formed(self) -> bool {
        !(self.result is Some && self.error is Some)
    }

    /// The wire shape: an error wins over a result, and a result that is
    /// present, null or not, is told apart from none.
    pub open spec fn result_kind(self) -> ResultKind {
        if self.error is Some {
            ResultKind::Error
        } else if self.result is Some {
            ResultKind::NonVoid
        } else {
            ResultKind::Void
        }
    }
}

impl CompletionMessage {
    /// The wire shape: an error wins over a result, and a result that is
    /// present, null or not, is told apart from none.
    pub fn result_kind(&self) -> (kind: ResultKind)
        ensures
            kind == self@.result_kind(),
    {
        if self.error.is_some() {
            ResultKind::Error
        } else if self.result.is_some() {
            ResultKind::NonVoid
        } else {
            ResultKind::Void
        }
    }

    /// The reply to an invocation that asked for one and got nothing back:
    /// neither result nor error.
    pub fn void(invocation_id: String) -> (completion: CompletionMessage)
        ensures
            completion@ == (CompletionView {
                invocation_id: invocation_id@,
                result: None,
                error: None,
            }),
            completion@.well_formed(),
            completion@.result_kind() == ResultKind::Void,
    {
        CompletionMessage { invocation_id, result: None, error: None }
    }
}

} // verus!
