//! What a client is told when it asks how to connect to a hub.

use vstd::prelude::*;

verus! {

/// A transport that a hub can be reached by, and the formats it carries.
#[derive(Debug, PartialEq)]
pub struct SignalRTransport {
    pub transport: String,
    pub transfer_formats: Vec<String>,
}

/// The answer to a negotiation: who the connection is, and how it can be made.
#[derive(Debug, PartialEq)]
pub struct SignalRNegotiate {
    pub connection_token: String,
    pub connection_id: String,
    pub negotiate_version: u8,
    pub available_transports: Vec<SignalRTransport>,
}

/// The mathematical form of a [`SignalRTransport`].
pub struct TransportView {
    pub transport: Seq<char>,
    pub transfer_formats: Seq<Seq<char>>,
}

/// The mathematical form of a [`SignalRNegotiate`].
pub struct NegotiateView {
    pub connection_token: Seq<char>,
    pub connection_id: Seq<char>,
    pub negotiate_version: u8,
    pub available_transports: Seq<TransportView>,
}

impl View for SignalRTransport {
    type V = TransportView;

    open spec fn view(&self) -> TransportView {
        TransportView {
            transport: self.transport@,
            transfer_formats: Seq::new(
                self.transfer_formats@.len(),
                |i: int| self.transfer_formats@[i]@,
            ),
        }
    }
}

impl View for SignalRNegotiate {
    type V = NegotiateView;

    open spec fn view(&self) -> NegotiateView {
        NegotiateView {
            connection_token: self.connection_token@,
            connection_id: self.connection_id@,
            negotiate_version: self.negotiate_version,
            available_transports: Seq::new(
                self.available_transports@.len(),
                |i: int| self.available_transports@[i]@,
            ),
        }
    }
}

/// The one transport there is: web sockets, for text and for binary frames.
pub open spec fn web_sockets() -> TransportView {
    TransportView { transport: "WebSockets"@, transfer_formats: seq!["Text"@, "Binary"@] }
}

/// The answer that every negotiation gets.
pub open spec fn negotiated() -> NegotiateView {
    NegotiateView {
        connection_token: "connectionToken"@,
        connection_id: "connectionId"@,
        negotiate_version: 1,
        available_transports: seq![web_sockets()],
    }
}

impl Default for SignalRTransport {
    fn default() -> (transport: SignalRTransport)
        ensures
            transport@ == web_sockets(),
    {
        let mut transfer_formats: Vec<String> = Vec::new();
        transfer_formats.push("Text".to_owned());
        transfer_formats.push("Binary".to_owned());
        let transport = SignalRTransport { transport: "WebSockets".to_owned(), transfer_formats };
        assert(transport@.transfer_formats =~= web_sockets().transfer_formats);
        transport
    }
}

impl Default for SignalRNegotiate {
    fn default() -> (negotiate: SignalRNegotiate)
        ensures
            negotiate@ == negotiated(),
    {
        let mut available_transports: Vec<SignalRTransport> = Vec::new();
        available_transports.push(SignalRTransport::default());
        let negotiate = SignalRNegotiate {
            connection_token: "connectionToken".to_owned(),
            connection_id: "connectionId".to_owned(),
            negotiate_version: 1,
            available_transports,
        };
        assert(negotiate@.available_transports =~= negotiated().available_transports);
        negotiate
    }
}

} // verus!
