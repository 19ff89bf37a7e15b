use fibers::signalr::hub::metadata::handle_metadata_hub;
use fibers::signalr::hub::multiplayer::handle_multiplayer_hub;
use fibers::signalr::hub::spectator::handle_spectator_hub;
use fibers::signalr::hub::{step, FrameKind, HubEvent, HubKind, HubState};
use fibers::signalr::negotiate::{SignalRNegotiate, SignalRTransport};

#[test]
fn transport_default_is_web_sockets() {
    assert_eq!(
        SignalRTransport::default(),
        SignalRTransport {
            transport: "WebSockets".to_string(),
            transfer_formats: vec!["Text".to_string(), "Binary".to_string()],
        }
    );
}

#[test]
fn negotiate_default_offers_web_sockets() {
    assert_eq!(
        SignalRNegotiate::default(),
        SignalRNegotiate {
            connection_token: "connectionToken".to_string(),
            connection_id: "connectionId".to_string(),
            negotiate_version: 1,
            available_transports: vec![SignalRTransport::default()],
        }
    );
}

fn events() -> Vec<(HubState, HubEvent)> {
    let frames: [&[u8]; 6] = [
        b"{\"protocol\":\"json\",\"version\":1}\x1e",
        b"{\"protocol\":\"messagepack\",\"version\":1}\x1e",
        b"{\"type\":6}\x1e",
        &[0x02, 0x91, 0x06],
        &[0x09, 0x95, 0x01, 0x80, 0xA2, 0x34, 0x32, 0xA1, 0x78, 0x90],
        b"",
    ];
    let mut events = Vec::new();
    for state in [HubState::Handshaking, HubState::Active, HubState::Closed] {
        for frame in frames {
            for kind in [FrameKind::Text, FrameKind::Binary, FrameKind::Close] {
                events.push((state, HubEvent::Frame(kind, frame.to_vec())));
            }
        }
        events.push((state, HubEvent::Disconnected));
    }
    events
}

#[test]
fn each_hub_takes_the_step_of_its_kind() {
    for (state, event) in events() {
        let again = || match &event {
            HubEvent::Frame(kind, data) => HubEvent::Frame(*kind, data.clone()),
            HubEvent::Disconnected => HubEvent::Disconnected,
        };
        assert_eq!(handle_metadata_hub(state, again()), step(HubKind::Metadata, state, again()));
        assert_eq!(
            handle_multiplayer_hub(state, again()),
            step(HubKind::Multiplayer, state, again())
        );
        assert_eq!(handle_spectator_hub(state, again()), step(HubKind::Spectator, state, again()));
    }
}

#[test]
fn metadata_hub_echoes_a_json_ping_and_the_others_a_msgpack_ping() {
    let json = HubEvent::Frame(FrameKind::Binary, b"{\"type\":6}\x1e".to_vec());
    assert!(handle_metadata_hub(HubState::Active, json).reply.is_some());
    let msgpack = || HubEvent::Frame(FrameKind::Binary, vec![0x02, 0x91, 0x06]);
    assert!(handle_metadata_hub(HubState::Active, msgpack()).reply.is_none());
    assert!(handle_multiplayer_hub(HubState::Active, msgpack()).reply.is_some());
    assert!(handle_spectator_hub(HubState::Active, msgpack()).reply.is_some());
}
