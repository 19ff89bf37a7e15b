//! The hubs: the handshake that picks a connection's protocol, and the rules
//! by which a hub answers the frames it receives.
//!
//! Nothing here touches a socket. The program that owns the connection hands
//! each transport event to [`step`], carries out what the step asks for, and
//! keeps the state that it returns.

use crate::signalr::json::{json_parse, JsonNumber, JsonValue, JsonView};
use crate::signalr::message::json::{message_to_json, JsonParseError};
use crate::signalr::message::msgpack::{deserialize_message, MsgpackParseError};
use crate::signalr::message::{
    CompletionMessage, CompletionView, InvocationView, Message, MessageView,
    UnsupportedMessageKind,
};
use crate::signalr::value::ValueView;
use crate::signalr::text::{frame_text, text_frame, text_of_frame, RECORD_SEPARATOR};
use vstd::prelude::*;

pub mod metadata;
pub mod multiplayer;
pub mod spectator;

verus! {

/// The wire encoding that governs a connection once its handshake is done.
#[derive(Debug, Clone, Copy, PartialEq, Eq, Structural)]
pub enum SignalRProtocol {
    Msgpack,
    Json,
}

/// The three hubs a connection can be opened to.
#[derive(Debug, Clone, Copy, PartialEq, Eq, Structural)]
pub enum HubKind {
    Metadata,
    Multiplayer,
    Spectator,
}

/// What a client announces in the first frame of a connection.
#[derive(Debug, PartialEq)]
pub struct SignalRHandshake {
    /// The name of the protocol that the client asks for.
    pub protocol: String,
    /// The protocol version, where the client names one as an unsigned
    /// integer. Nothing depends on it.
    pub version: Option<u64>,
}

/// The mathematical form of a [`SignalRHandshake`].
pub struct HandshakeView {
    pub protocol: Seq<char>,
    pub version: Option<u64>,
}

/// Why a handshake came to nothing.
#[derive(Debug, Clone, Copy, PartialEq, Eq, Structural)]
pub enum SignalRHandshakeError {
    /// The connection ended before any frame came.
    SocketClosed,
    /// The frame is no handshake: it does not end in the record separator,
    /// is not UTF-8 or not JSON, or names no protocol.
    HandshakeDecodeError,
    /// The handshake names a protocol that is neither `json` nor
    /// `messagepack`.
    InvalidProtocol,
}

/// How a handshake went: whether it is to be acknowledged, and the protocol
/// that it settled on.
#[derive(Debug, Clone, Copy, PartialEq, Eq)]
pub struct Negotiation {
    /// Whether the acknowledgement frame is owed to the client. It is owed
    /// for every handshake that could be read, also for one that names a
    /// protocol which is then turned down.
    pub acknowledge: bool,
    pub outcome: Result<SignalRProtocol, SignalRHandshakeError>,
}

/// Where a connection stands.
#[derive(Debug, Clone, Copy, PartialEq, Eq, Structural)]
pub enum HubState {
    /// No handshake has been read yet.
    Handshaking,
    /// The handshake is done; messages are read and answered.
    Active,
    /// The connection is over. Nothing is read or sent any more.
    Closed,
}

/// The kinds of frame that the transport delivers.
#[derive(Debug, Clone, Copy, PartialEq, Eq, Structural)]
pub enum FrameKind {
    Text,
    Binary,
    Ping,
    Pong,
    Close,
}

/// What the transport reports: a frame with its payload, or the end of the
/// connection, be it orderly or by an error.
#[derive(Debug, PartialEq)]
pub enum HubEvent {
    Frame(FrameKind, Vec<u8>),
    Disconnected,
}

/// The mathematical form of a [`HubEvent`].
pub enum HubEventView {
    Frame(FrameKind, Seq<u8>),
    Disconnected,
}

/// What a hub sends in answer to an event.
#[derive(Debug, PartialEq)]
pub enum HubReply {
    /// The handshake acknowledgement, [`handshake_ack`], as one binary frame.
    Acknowledge,
    /// A message, in the protocol of the hub.
    Message(Message),
}

/// The mathematical form of a [`HubReply`].
pub enum HubReplyView {
    Acknowledge,
    Message(MessageView),
}

/// Why a frame is no message, in the codec of the hub that read it.
#[derive(Debug, Clone, Copy, PartialEq, Eq, Structural)]
pub enum FrameDecodeError {
    Json(JsonParseError),
    Msgpack(MsgpackParseError),
}

/// What went wrong while an event was handled. None of these is ever told to
/// the client. All but `FrameDecodeError` end the connection.
#[derive(Debug, Clone, Copy, PartialEq, Eq, Structural)]
pub enum HubError {
    /// The connection ended: before the handshake, or later while the hub
    /// waited for a frame.
    SocketClosed,
    /// The first frame is no handshake.
    HandshakeDecodeError,
    /// The handshake names a protocol that does not exist.
    InvalidProtocol,
    /// The handshake settled on a protocol that the hub does not speak.
    ProtocolMismatch,
    /// A frame is no message. The frame is dropped and the hub reads on.
    FrameDecodeError(FrameDecodeError),
}

/// The outcome of one step: where the connection stands now, the message
/// that was read, what is to be sent, and what, if anything, went wrong.
#[derive(Debug, PartialEq)]
pub struct HubStep {
    pub state: HubState,
    /// The message that the event carried, where it carried one. It is handed
    /// on so that it can be observed; the hub acts on it no further than
    /// `reply` tells.
    pub received: Option<Message>,
    pub reply: Option<HubReply>,
    pub error: Option<HubError>,
}

/// The mathematical form of a [`HubStep`].
pub struct HubStepView {
    pub state: HubState,
    pub received: Option<MessageView>,
    pub reply: Option<HubReplyView>,
    pub error: Option<HubError>,
}

impl View for SignalRHandshake {
    type V = HandshakeView;

    open spec fn view(&self) -> HandshakeView {
        HandshakeView { protocol: self.protocol@, version: self.version }
    }
}

impl View for HubEvent {
    type V = HubEventView;

    open spec fn view(&self) -> HubEventView {
        match self {
            HubEvent::Frame(kind, data) => HubEventView::Frame(*kind, data@),
            HubEvent::Disconnected => HubEventView::Disconnected,
        }
    }
}

impl View for HubReply {
    type V = HubReplyView;

    open spec fn view(&self) -> HubReplyView {
        match self {
            HubReply::Acknowledge => HubReplyView::Acknowledge,
            HubReply::Message(message) => HubReplyView::Message(message@),
        }
    }
}

impl View for HubStep {
    type V = HubStepView;

    open spec fn view(&self) -> HubStepView {
        HubStepView {
            state: self.state,
            received: match self.received {
                Some(message) => Some(message@),
                None => None,
            },
            reply: match self.reply {
                Some(reply) => Some(reply@),
                None => None,
            },
            error: self.error,
        }
    }
}

/// The protocol that goes by a name: `json` or `messagepack`.
pub open spec fn protocol_named(name: Seq<char>) -> Option<SignalRProtocol> {
    if name == "json"@ {
        Some(SignalRProtocol::Json)
    } else if name == "messagepack"@ {
        Some(SignalRProtocol::Msgpack)
    } else {
        None
    }
}

/// The hub that goes by a name: `metadata`, `multiplayer` or `spectator`.
pub open spec fn hub_named(name: Seq<char>) -> Option<HubKind> {
    if name == "metadata"@ {
        Some(HubKind::Metadata)
    } else if name == "multiplayer"@ {
        Some(HubKind::Multiplayer)
    } else if name == "spectator"@ {
        Some(HubKind::Spectator)
    } else {
        None
    }
}

/// The handshake that a document is: an object whose `protocol` is a string.
/// The `version` is taken along where it is an unsigned integer, and need not
/// be there.
pub open spec fn handshake_from_json(document: JsonView) -> Option<HandshakeView> {
    match document.get("protocol"@) {
        Some(JsonView::String(protocol)) => Some(
            HandshakeView {
                protocol,
                version: match document.get("version"@) {
                    Some(JsonView::Number(n)) => n.spec_as_u64(),
                    _ => None,
                },
            },
        ),
        _ => None,
    }
}

/// The handshake in a frame: the text before the record separator, parsed as
/// JSON.
pub open spec fn handshake_from_frame(frame: Seq<u8>) -> Option<HandshakeView> {
    match frame_text(frame) {
        Some(text) => match json_parse(text) {
            Some(document) => handshake_from_json(document),
            None => None,
        },
        None => None,
    }
}

/// How the handshake goes for what was received: the first frame, or nothing
/// where the connection ended before one came.
pub open spec fn negotiation_of(received: Option<Seq<u8>>) -> Negotiation {
    match received {
        None => Negotiation {
            acknowledge: false,
            outcome: Err(SignalRHandshakeError::SocketClosed),
        },
        Some(frame) => match handshake_from_frame(frame) {
            None => Negotiation {
                acknowledge: false,
                outcome: Err(SignalRHandshakeError::HandshakeDecodeError),
            },
            Some(handshake) => Negotiation {
                acknowledge: true,
                outcome: match protocol_named(handshake.protocol) {
                    Some(protocol) => Ok(protocol),
                    None => Err(SignalRHandshakeError::InvalidProtocol),
                },
            },
        },
    }
}

/// The acknowledgement of a handshake: an empty JSON object as a text frame.
pub open spec fn handshake_ack_bytes() -> Seq<u8> {
    seq![0x7Bu8, 0x7Du8, RECORD_SEPARATOR]
}

/// Whether a hub that speaks `protocol` reads messages from frames of this
/// kind: from binary frames always, from text frames where it speaks JSON.
pub open spec fn carries_messages(protocol: SignalRProtocol, kind: FrameKind) -> bool {
    kind is Binary || (kind is Text && protocol is Json)
}

/// The message in a frame, read in the given protocol.
pub open spec fn message_in(protocol: SignalRProtocol, frame: Seq<u8>) -> Result<
    MessageView,
    FrameDecodeError,
> {
    match protocol {
        SignalRProtocol::Json => match crate::signalr::message::json::message_from_frame(frame) {
            Ok(message) => Ok(message),
            Err(e) => Err(FrameDecodeError::Json(e)),
        },
        SignalRProtocol::Msgpack => match crate::signalr::message::msgpack::message_from_frame(
            frame,
        ) {
            Ok(message) => Ok(message),
            Err(e) => Err(FrameDecodeError::Msgpack(e)),
        },
    }
}

/// The answer that a message gets: an invocation that names an id is
/// completed with neither result nor error, a ping is echoed, and nothing
/// else is answered.
pub open spec fn reply_to(message: MessageView) -> Option<MessageView> {
    match message {
        MessageView::Invocation(invocation) => match invocation.invocation_id {
            Some(id) => Some(
                MessageView::Completion(
                    CompletionView { invocation_id: id, result: None, error: None },
                ),
            ),
            None => None,
        },
        MessageView::Ping => Some(MessageView::Ping),
        _ => None,
    }
}

/// A step that ends the connection without a word.
pub open spec fn closed_step(error: Option<HubError>) -> HubStepView {
    HubStepView { state: HubState::Closed, received: None, reply: None, error }
}

/// The step that a hub takes in the handshake. A close frame counts as no
/// frame.
pub open spec fn handshake_step(hub: HubKind, event: HubEventView) -> HubStepView {
    match event {
        HubEventView::Disconnected => closed_step(Some(HubError::SocketClosed)),
        HubEventView::Frame(FrameKind::Close, _) => closed_step(Some(HubError::SocketClosed)),
        HubEventView::Frame(_, frame) => {
            let negotiation = negotiation_of(Some(frame));
            let reply = if negotiation.acknowledge {
                Some(HubReplyView::Acknowledge)
            } else {
                None
            };
            match negotiation.outcome {
                Ok(protocol) => if protocol == hub.spec_required_protocol() {
                    HubStepView { state: HubState::Active, received: None, reply, error: None }
                } else {
                    HubStepView {
                        state: HubState::Closed,
                        received: None,
                        reply,
                        error: Some(HubError::ProtocolMismatch),
                    }
                },
                Err(e) => HubStepView {
                    state: HubState::Closed,
                    received: None,
                    reply,
                    error: Some(HubError::spec_from_handshake(e)),
                },
            }
        },
    }
}

/// The step that a hub takes once the handshake is done.
pub open spec fn active_step(hub: HubKind, event: HubEventView) -> HubStepView {
    match event {
        HubEventView::Disconnected => closed_step(Some(HubError::SocketClosed)),
        HubEventView::Frame(FrameKind::Close, _) => closed_step(None),
        HubEventView::Frame(kind, frame) => if carries_messages(
            hub.spec_required_protocol(),
            kind,
        ) {
            match message_in(hub.spec_required_protocol(), frame) {
                Ok(message) => HubStepView {
                    state: HubState::Active,
                    received: Some(message),
                    reply: match reply_to(message) {
                        Some(answer) => Some(HubReplyView::Message(answer)),
                        None => None,
                    },
                    error: None,
                },
                Err(e) => HubStepView {
                    state: HubState::Active,
                    received: None,
                    reply: None,
                    error: Some(HubError::FrameDecodeError(e)),
                },
            }
        } else {
            HubStepView { state: HubState::Active, received: None, reply: None, error: None }
        },
    }
}

/// The step that a hub takes on an event.
pub open spec fn hub_step(hub: HubKind, state: HubState, event: HubEventView) -> HubStepView {
    match state {
        HubState::Handshaking => handshake_step(hub, event),
        HubState::Active => active_step(hub, event),
        HubState::Closed => closed_step(None),
    }
}

/// A handshake that settles on a protocol other than the hub's own ends the
/// connection at once: the handshake is acknowledged, and the hub never gets
/// to the state in which messages are read. Whatever comes after is neither
/// read nor answered.
pub proof fn lemma_protocol_binding(
    hub: HubKind,
    kind: FrameKind,
    frame: Seq<u8>,
    later: HubEventView,
)
    requires
        !(kind is Close),
        negotiation_of(Some(frame)).outcome is Ok,
        negotiation_of(Some(frame)).outcome->Ok_0 != hub.spec_required_protocol(),
    ensures
        hub_step(hub, HubState::Handshaking, HubEventView::Frame(kind, frame)) == (HubStepView {
            state: HubState::Closed,
            received: None,
            reply: Some(HubReplyView::Acknowledge),
            error: Some(HubError::ProtocolMismatch),
        }),
        hub_step(
            hub,
            hub_step(hub, HubState::Handshaking, HubEventView::Frame(kind, frame)).state,
            later,
        ) == closed_step(None),
{
}

/// A connection that is over stays over, and nothing is sent on it.
pub proof fn lemma_closed_is_final(hub: HubKind, event: HubEventView)
    ensures
        hub_step(hub, HubState::Closed, event) == closed_step(None),
{
}

/// Only a close frame or the end of the connection takes an active hub out of
/// its state. A frame that is no message is dropped without an answer, and the
/// hub reads on.
pub proof fn lemma_active_until_closed(hub: HubKind, event: HubEventView)
    ensures
        hub_step(hub, HubState::Active, event).state == if event is Disconnected || (
        event matches HubEventView::Frame(kind, _) && kind is Close) {
            HubState::Closed
        } else {
            HubState::Active
        },
        hub_step(hub, HubState::Active, event).error is Some ==> hub_step(
            hub,
            HubState::Active,
            event,
        ).reply is None,
{
}

/// A frame that is no message does not harm an active hub: it is dropped
/// without an answer, and a ping that follows it is echoed.
pub proof fn lemma_survives_bad_frame(hub: HubKind, bad: Seq<u8>, ping: Seq<u8>)
    requires
        message_in(hub.spec_required_protocol(), bad) is Err,
        message_in(hub.spec_required_protocol(), ping) == Ok::<MessageView, FrameDecodeError>(
            MessageView::Ping,
        ),
    ensures
        ({
            let dropped = hub_step(
                hub,
                HubState::Active,
                HubEventView::Frame(FrameKind::Binary, bad),
            );
            let echoed = hub_step(hub, dropped.state, HubEventView::Frame(FrameKind::Binary, ping));
            &&& dropped.state == HubState::Active
            &&& dropped.reply is None
            &&& dropped.error == Some(
                HubError::FrameDecodeError(
                    message_in(hub.spec_required_protocol(), bad)->Err_0,
                ),
            )
            &&& echoed.state == HubState::Active
            &&& echoed.reply == Some(HubReplyView::Message(MessageView::Ping))
            &&& echoed.error is None
        }),
{
}

/// An invocation that names an id gets exactly one answer: the completion for
/// that id with neither result nor error, which on a JSON hub is the object of
/// `type` 3 and the `invocationId`, and nothing else.
pub proof fn lemma_invocation_is_completed(
    hub: HubKind,
    frame: Seq<u8>,
    id: Seq<char>,
    target: Seq<char>,
    arguments: Seq<ValueView>,
)
    requires
        message_in(hub.spec_required_protocol(), frame) == Ok::<MessageView, FrameDecodeError>(
            MessageView::Invocation(InvocationView { invocation_id: Some(id), target, arguments }),
        ),
    ensures
        ({
            let completion = MessageView::Completion(
                CompletionView { invocation_id: id, result: None, error: None },
            );
            &&& hub_step(hub, HubState::Active, HubEventView::Frame(FrameKind::Binary, frame)).reply
                == Some(HubReplyView::Message(completion))
            &&& message_to_json(completion) == Ok::<JsonView, UnsupportedMessageKind>(
                JsonView::Object(
                    seq![
                        ("type"@, JsonView::Number(JsonNumber::PosInt(3))),
                        ("invocationId"@, JsonView::String(id)),
                    ],
                ),
            )
        }),
{
    let completion = MessageView::Completion(
        CompletionView { invocation_id: id, result: None, error: None },
    );
    assert(message_to_json(completion)->Ok_0->Object_0 =~= seq![
        ("type"@, JsonView::Number(JsonNumber::PosInt(3))),
        ("invocationId"@, JsonView::String(id)),
    ]);
}

/// An error ends the connection exactly where it is terminal: after a step
/// with a terminal error the hub is closed, after one with a frame decode
/// error it is in the state it was in.
pub proof fn lemma_terminal_errors_close(hub: HubKind, state: HubState, event: HubEventView)
    ensures
        match hub_step(hub, state, event).error {
            Some(e) => if e.spec_is_terminal() {
                hub_step(hub, state, event).state == HubState::Closed
            } else {
                state == HubState::Active && hub_step(hub, state, event).state == HubState::Active
            },
            None => true,
        },
{
}

/// The handshake is acknowledged exactly where it could be read, whatever
/// protocol it names and whatever the hub makes of that.
pub proof fn lemma_acknowledged_when_read(hub: HubKind, kind: FrameKind, frame: Seq<u8>)
    requires
        !(kind is Close),
    ensures
        hub_step(hub, HubState::Handshaking, HubEventView::Frame(kind, frame)).reply == if
            handshake_from_frame(frame) is Some {
            Some(HubReplyView::Acknowledge)
        } else {
            None::<HubReplyView>
        },
{
}

impl SignalRHandshakeError {
    /// The name of the error.
    pub open spec fn name(self) -> Seq<char> {
        match self {
            SignalRHandshakeError::SocketClosed => "SocketClosed"@,
            SignalRHandshakeError::HandshakeDecodeError => "HandshakeDecodeError"@,
            SignalRHandshakeError::InvalidProtocol => "InvalidProtocol"@,
        }
    }

    /// The error as text: its name.
    pub fn to_string(&self) -> (text: String)
        ensures
            text@ == self.name(),
    {
        match self {
            SignalRHandshakeError::SocketClosed => "SocketClosed".to_owned(),
            SignalRHandshakeError::HandshakeDecodeError => "HandshakeDecodeError".to_owned(),
            SignalRHandshakeError::InvalidProtocol => "InvalidProtocol".to_owned(),
        }
    }
}

impl HubError {
    /// The error that a failed handshake ends the connection with.
    pub open spec fn spec_from_handshake(e: SignalRHandshakeError) -> HubError {
        match e {
            SignalRHandshakeError::SocketClosed => HubError::SocketClosed,
            SignalRHandshakeError::HandshakeDecodeError => HubError::HandshakeDecodeError,
            SignalRHandshakeError::InvalidProtocol => HubError::InvalidProtocol,
        }
    }

    /// Whether the error ends the connection.
    pub open spec fn spec_is_terminal(self) -> bool {
        !(self is FrameDecodeError)
    }

    /// The error that a failed handshake ends the connection with.
    #[verifier::when_used_as_spec(spec_from_handshake)]
    pub fn from_handshake(e: SignalRHandshakeError) -> (error: HubError)
        ensures
            error == HubError::spec_from_handshake(e),
    {
        match e {
            SignalRHandshakeError::SocketClosed => HubError::SocketClosed,
            SignalRHandshakeError::HandshakeDecodeError => HubError::HandshakeDecodeError,
            SignalRHandshakeError::InvalidProtocol => HubError::InvalidProtocol,
        }
    }

    /// Whether the error ends the connection.
    #[verifier::when_used_as_spec(spec_is_terminal)]
    pub fn is_terminal(self) -> (terminal: bool)
        ensures
            terminal == self.spec_is_terminal(),
    {
        match self {
            HubError::FrameDecodeError(_) => false,
            _ => true,
        }
    }
}

impl HubKind {
    /// The one protocol that the hub speaks.
    pub open spec fn spec_required_protocol(self) -> SignalRProtocol {
        match self {
            HubKind::Metadata => SignalRProtocol::Json,
            HubKind::Multiplayer => SignalRProtocol::Msgpack,
            HubKind::Spectator => SignalRProtocol::Msgpack,
        }
    }

    /// The one protocol that the hub speaks.
    #[verifier::when_used_as_spec(spec_required_protocol)]
    pub fn required_protocol(self) -> (protocol: SignalRProtocol)
        ensures
            protocol == self.spec_required_protocol(),
    {
        match self {
            HubKind::Metadata => SignalRProtocol::Json,
            HubKind::Multiplayer => SignalRProtocol::Msgpack,
            HubKind::Spectator => SignalRProtocol::Msgpack,
        }
    }

    /// The hub that goes by a name.
    pub fn from_name(name: &str) -> (hub: Option<HubKind>)
        ensures
            hub == hub_named(name@),
    {
        let name = name.to_owned();
        if name == "metadata".to_owned() {
            Some(HubKind::Metadata)
        } else if name == "multiplayer".to_owned() {
            Some(HubKind::Multiplayer)
        } else if name == "spectator".to_owned() {
            Some(HubKind::Spectator)
        } else {
            None
        }
    }
}

impl SignalRProtocol {
    /// The protocol that goes by a name.
    pub fn from_name(name: &str) -> (protocol: Option<SignalRProtocol>)
        ensures
            protocol == protocol_named(name@),
    {
        let name = name.to_owned();
        if name == "json".to_owned() {
            Some(SignalRProtocol::Json)
        } else if name == "messagepack".to_owned() {
            Some(SignalRProtocol::Msgpack)
        } else {
            None
        }
    }
}

impl SignalRHandshake {
    /// The handshake that a document is.
    pub fn from_json(document: &JsonValue) -> (r: Option<SignalRHandshake>)
        ensures
            match r {
                Some(handshake) => handshake_from_json(document@) == Some(handshake@),
                None => handshake_from_json(document@) is None,
            },
    {
        match document.get("protocol") {
            Some(JsonValue::String(protocol)) => {
                let version = match document.get("version") {
                    Some(JsonValue::Number(n)) => n.as_u64(),
                    _ => None,
                };
                Some(SignalRHandshake { protocol: protocol.clone(), version })
            },
            _ => None,
        }
    }

    /// The handshake in a frame.
    pub fn from_frame(frame: &[u8]) -> (r: Option<SignalRHandshake>)
        ensures
            match r {
                Some(handshake) => handshake_from_frame(frame@) == Some(handshake@),
                None => handshake_from_frame(frame@) is None,
            },
    {
        match text_of_frame(frame) {
            Some(text) => match JsonValue::parse(text) {
                Some(document) => SignalRHandshake::from_json(&document),
                None => None,
            },
            None => None,
        }
    }
}

/// Goes through the handshake with what was received: the first frame of the
/// connection, or nothing where the connection ended before one came.
pub fn initiate(received: Option<&[u8]>) -> (negotiation: Negotiation)
    ensures
        negotiation == negotiation_of(
            match received {
                Some(frame) => Some(frame@),
                None => None,
            },
        ),
{
    let frame = match received {
        Some(frame) => frame,
        None => {
            return Negotiation {
                acknowledge: false,
                outcome: Err(SignalRHandshakeError::SocketClosed),
            };
        },
    };
    match SignalRHandshake::from_frame(frame) {
        Some(handshake) => Negotiation {
            acknowledge: true,
            outcome: match SignalRProtocol::from_name(handshake.protocol.as_str()) {
                Some(protocol) => Ok(protocol),
                None => Err(SignalRHandshakeError::InvalidProtocol),
            },
        },
        None => Negotiation {
            acknowledge: false,
            outcome: Err(SignalRHandshakeError::HandshakeDecodeError),
        },
    }
}

/// The bytes of the handshake acknowledgement.
pub fn handshake_ack() -> (ack: Vec<u8>)
    ensures
        ack@ == handshake_ack_bytes(),
{
    let mut ack: Vec<u8> = Vec::new();
    ack.push(0x7B);
    ack.push(0x7D);
    ack.push(RECORD_SEPARATOR);
    assert(ack@ =~= handshake_ack_bytes());
    ack
}

/// The handshake acknowledgement is the text frame of `{}`.
pub proof fn lemma_handshake_ack_is_empty_object()
    ensures
        handshake_ack_bytes() == text_frame("{}"@),
{
    reveal_strlit("{}");
    let text = "{}"@;
    assert(text.len() == 2 && text[0] == '{' && text[1] == '}');
    lemma_ascii_pair(text);
    assert(handshake_ack_bytes() =~= text_frame(text));
}

/// The UTF-8 form of `{}` is its two bytes.
proof fn lemma_ascii_pair(text: Seq<char>)
    requires
        text.len() == 2,
        text[0] == '{',
        text[1] == '}',
    ensures
        vstd::utf8::encode_utf8(text) == seq![0x7Bu8, 0x7Du8],
{
    broadcast use vstd::utf8::is_ascii_chars_encode_utf8;

    assert(vstd::utf8::is_ascii_chars(text));
    assert(vstd::utf8::encode_utf8(text) =~= seq![0x7Bu8, 0x7Du8]);
}

/// The answer that a message gets.
pub fn answer(message: &Message) -> (r: Option<Message>)
    ensures
        match r {
            Some(reply) => reply_to(message@) == Some(reply@),
            None => reply_to(message@) is None,
        },
{
    match message {
        Message::Invocation(invocation) => match &invocation.invocation_id {
            Some(id) => Some(Message::Completion(CompletionMessage::void(id.clone()))),
            None => None,
        },
        Message::Ping => Some(Message::Ping),
        _ => None,
    }
}

/// Takes one step: what the hub makes of an event in the state it is in.
pub fn step(hub: HubKind, state: HubState, event: HubEvent) -> (r: HubStep)
    ensures
        r@ == hub_step(hub, state, event@),
{
    match state {
        HubState::Closed => closed(None),
        HubState::Handshaking => match event {
            HubEvent::Disconnected => closed(Some(HubError::SocketClosed)),
            HubEvent::Frame(FrameKind::Close, _) => closed(Some(HubError::SocketClosed)),
            HubEvent::Frame(_, frame) => {
                let negotiation = initiate(Some(frame.as_slice()));
                let reply = if negotiation.acknowledge {
                    Some(HubReply::Acknowledge)
                } else {
                    None
                };
                match negotiation.outcome {
                    Ok(protocol) => if protocol == hub.required_protocol() {
                        HubStep { state: HubState::Active, received: None, reply, error: None }
                    } else {
                        HubStep {
                            state: HubState::Closed,
                            received: None,
                            reply,
                            error: Some(HubError::ProtocolMismatch),
                        }
                    },
                    Err(e) => HubStep {
                        state: HubState::Closed,
                        received: None,
                        reply,
                        error: Some(HubError::from_handshake(e)),
                    },
                }
            },
        },
        HubState::Active => match event {
            HubEvent::Disconnected => closed(Some(HubError::SocketClosed)),
            HubEvent::Frame(FrameKind::Close, _) => closed(None),
            HubEvent::Frame(kind, frame) => {
                let protocol = hub.required_protocol();
                let reads = match kind {
                    FrameKind::Binary => true,
                    FrameKind::Text => protocol == SignalRProtocol::Json,
                    _ => false,
                };
                if !reads {
                    return HubStep {
                        state: HubState::Active,
                        received: None,
                        reply: None,
                        error: None,
                    };
                }
                let decoded = match protocol {
                    SignalRProtocol::Json => match Message::deserialize_frame(frame.as_slice()) {
                        Ok(message) => Ok(message),
                        Err(e) => Err(FrameDecodeError::Json(e)),
                    },
                    SignalRProtocol::Msgpack => match deserialize_message(frame.as_slice()) {
                        Ok(message) => Ok(message),
                        Err(e) => Err(FrameDecodeError::Msgpack(e)),
                    },
                };
                match decoded {
                    Ok(message) => {
                        let reply = match answer(&message) {
                            Some(reply) => Some(HubReply::Message(reply)),
                            None => None,
                        };
                        HubStep {
                            state: HubState::Active,
                            received: Some(message),
                            reply,
                            error: None,
                        }
                    },
                    Err(e) => HubStep {
                        state: HubState::Active,
                        received: None,
                        reply: None,
                        error: Some(HubError::FrameDecodeError(e)),
                    },
                }
            },
        },
    }
}

/// A step that ends the connection without a word.
fn closed(error: Option<HubError>) -> (r: HubStep)
    ensures
        r@ == closed_step(error),
{
    HubStep { state: HubState::Closed, received: None, reply: None, error }
}

} // verus!
