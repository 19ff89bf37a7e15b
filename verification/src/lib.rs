//! The protocol core of a game server: a SignalR-compatible hub protocol with
//! its handshake, its framing, its JSON and MessagePack codecs and the rules
//! by which a hub answers, and the mods that a score is played with.
//!
//! Nothing in this crate reads or writes a socket. Bytes come in, messages
//! and documents go out; the program around the crate owns the connection.

pub mod osu_mods;
pub mod signalr;
