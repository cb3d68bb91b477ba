use curxy::tunnel::{
    handshake_metadata, AcceptAction, AcceptEvent, AcceptLoop, Relay, RelayAction, RelayEvent,
    RelayState, RELAY_BUFFER_SIZE,
};

fn open_relay(port: u16) -> Relay {
    let mut r = Relay::new(port);
    assert!(matches!(r.on_event(RelayEvent::Begin), RelayAction::Respond));
    assert!(matches!(r.on_event(RelayEvent::HandshakeAccepted), RelayAction::OpenLocal(p) if p == port));
    assert!(matches!(r.on_event(RelayEvent::LocalOpened), RelayAction::AwaitEither));
    assert_eq!(r.state, RelayState::Relaying);
    r
}

#[test]
fn handshake_metadata_is_fixed() {
    let m = handshake_metadata();
    let expected = vec![
        ("HttpStatus", "200"),
        ("HttpHeader:Content-Type", "application/json"),
        ("HttpHeader:Access-Control-Allow-Origin", "*"),
        ("HttpHeader:Access-Control-Allow-Methods", "GET, POST, OPTIONS"),
        ("HttpHeader:Access-Control-Allow-Headers", "Content-Type, Authorization"),
    ];
    assert_eq!(m.len(), expected.len());
    for (got, want) in m.iter().zip(expected.iter()) {
        assert_eq!(got.0, want.0);
        assert_eq!(got.1, want.1);
    }
}

#[test]
fn buffer_size_is_reference_size() {
    assert_eq!(RELAY_BUFFER_SIZE, 8192);
}

#[test]
fn relay_forwards_a_full_buffer_split_across_reads() {
    let mut r = open_relay(4000);
    let data: Vec<u8> = (0..(RELAY_BUFFER_SIZE + 1000)).map(|i| (i % 251) as u8).collect();
    let mut to_local: Vec<u8> = Vec::new();
    let mut to_tunnel: Vec<u8> = Vec::new();
    for (k, chunk) in data.chunks(1500).enumerate() {
        let event = if k % 2 == 0 {
            RelayEvent::TunnelData(chunk.to_vec())
        } else {
            RelayEvent::LocalData(chunk.to_vec())
        };
        match r.on_event(event) {
            RelayAction::WriteLocal(b) => to_local.extend(b),
            RelayAction::WriteTunnel(b) => to_tunnel.extend(b),
            _ => panic!("expected a write"),
        }
    }
    let mut from_tunnel: Vec<u8> = Vec::new();
    let mut from_local: Vec<u8> = Vec::new();
    for (k, chunk) in data.chunks(1500).enumerate() {
        if k % 2 == 0 {
            from_tunnel.extend_from_slice(chunk);
        } else {
            from_local.extend_from_slice(chunk);
        }
    }
    assert_eq!(to_local, from_tunnel);
    assert_eq!(to_tunnel, from_local);
    assert_eq!(to_local.len() + to_tunnel.len(), data.len());
    assert_eq!(r.state, RelayState::Relaying);
}

#[test]
fn echo_round_trip_keeps_order() {
    let mut r = open_relay(1);
    let mut echoed: Vec<u8> = Vec::new();
    for piece in [b"hello ".to_vec(), b"tunnel ".to_vec(), b"world".to_vec()] {
        match r.on_event(RelayEvent::TunnelData(piece)) {
            RelayAction::WriteLocal(b) => match r.on_event(RelayEvent::LocalData(b)) {
                RelayAction::WriteTunnel(back) => echoed.extend(back),
                _ => panic!("expected a write to the tunnel"),
            },
            _ => panic!("expected a write to the socket"),
        }
    }
    assert_eq!(echoed, b"hello tunnel world".to_vec());
}

#[test]
fn local_eof_closes_relay() {
    let mut r = open_relay(1);
    assert!(matches!(r.on_event(RelayEvent::LocalData(Vec::new())), RelayAction::Finish));
    assert_eq!(r.state, RelayState::Closed);
    assert!(r.is_finished());
    assert!(matches!(r.on_event(RelayEvent::TunnelData(vec![1, 2])), RelayAction::Idle));
    assert!(matches!(r.on_event(RelayEvent::LocalData(vec![3])), RelayAction::Idle));
    assert_eq!(r.state, RelayState::Closed);
}

#[test]
fn tunnel_eof_closes_relay() {
    let mut r = open_relay(1);
    assert!(matches!(r.on_event(RelayEvent::TunnelData(Vec::new())), RelayAction::Finish));
    assert_eq!(r.state, RelayState::Closed);
    let mut r2 = open_relay(1);
    assert!(matches!(r2.on_event(RelayEvent::TunnelEnd), RelayAction::Finish));
    assert_eq!(r2.state, RelayState::Closed);
    assert!(matches!(r2.on_event(RelayEvent::LocalData(vec![9])), RelayAction::Idle));
}

#[test]
fn io_error_fails_relay() {
    let mut r = open_relay(1);
    assert!(matches!(r.on_event(RelayEvent::IoFailed), RelayAction::Abandon));
    assert_eq!(r.state, RelayState::Failed);
    assert!(r.is_finished());
}

#[test]
fn refused_handshake_fails_connection() {
    let mut r = Relay::new(7);
    assert!(!r.is_finished());
    r.on_event(RelayEvent::Begin);
    assert!(matches!(r.on_event(RelayEvent::HandshakeRefused), RelayAction::Abandon));
    assert_eq!(r.state, RelayState::HandshakeFailed);
    assert!(matches!(r.on_event(RelayEvent::HandshakeAccepted), RelayAction::Idle));
}

#[test]
fn failed_connection_does_not_stop_the_next() {
    let mut accept = AcceptLoop::new();
    assert_eq!(accept.on_event(AcceptEvent::Incoming), AcceptAction::Dispatch);
    let mut first = Relay::new(5);
    first.on_event(RelayEvent::Begin);
    first.on_event(RelayEvent::HandshakeRefused);
    assert_eq!(first.state, RelayState::HandshakeFailed);
    assert_eq!(accept.on_event(AcceptEvent::Incoming), AcceptAction::Dispatch);
    let mut second = open_relay(5);
    assert!(matches!(second.on_event(RelayEvent::IoFailed), RelayAction::Abandon));
    assert_eq!(accept.on_event(AcceptEvent::Incoming), AcceptAction::Dispatch);
    let mut third = open_relay(5);
    match third.on_event(RelayEvent::TunnelData(vec![1, 2, 3])) {
        RelayAction::WriteLocal(b) => assert_eq!(b, vec![1, 2, 3]),
        _ => panic!("expected a write"),
    }
    assert!(accept.open);
}

#[test]
fn session_end_stops_accepting() {
    let mut a = AcceptLoop::new();
    assert_eq!(a.on_event(AcceptEvent::SessionClosed), AcceptAction::Shutdown);
    assert!(!a.open);
    assert_eq!(a.on_event(AcceptEvent::Incoming), AcceptAction::Shutdown);
    let mut b = AcceptLoop::new();
    assert_eq!(b.on_event(AcceptEvent::SessionFailed), AcceptAction::Fail);
    assert!(!b.open);
}
