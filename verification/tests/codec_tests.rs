use shared_cockpit::codec::{decode, encode};
use shared_cockpit::messages::{Payloads, PeerAddress};

fn addr(ip: u128, port: u16) -> PeerAddress {
    PeerAddress { is_v6: false, ip, port }
}

fn round_trip(p: Payloads) {
    let bytes = encode(&p);
    let back = decode(&bytes).expect("canonical encoding must decode");
    assert_eq!(back, p);
    // The other direction: re-encoding what was decoded gives the very
    // same bytes back.
    assert_eq!(encode(&back), bytes);
}

#[test]
fn round_trip_handshake() {
    round_trip(Payloads::Handshake { session_id: b"sess-42".to_vec() });
}

#[test]
fn round_trip_handshake_empty_session_id() {
    round_trip(Payloads::Handshake { session_id: Vec::new() });
}

#[test]
fn round_trip_init_handshake() {
    round_trip(Payloads::InitHandshake { name: b"alice".to_vec(), version: b"2.5.1".to_vec() });
}

#[test]
fn round_trip_init_handshake_empty_name() {
    round_trip(Payloads::InitHandshake { name: Vec::new(), version: b"2.5.1".to_vec() });
}

#[test]
fn round_trip_attempt_connection() {
    round_trip(Payloads::AttemptConnection { peer: addr(0x7f000001, 25071) });
    round_trip(Payloads::AttemptConnection {
        peer: PeerAddress { is_v6: true, ip: u128::MAX, port: u16::MAX },
    });
}

#[test]
fn round_trip_peer_established() {
    round_trip(Payloads::PeerEstablished);
}

#[test]
fn round_trip_invalid_version() {
    round_trip(Payloads::InvalidVersion { server_version: b"2.6.0".to_vec() });
}

#[test]
fn round_trip_invalid_name() {
    round_trip(Payloads::InvalidName);
}

#[test]
fn round_trip_request_hosting() {
    round_trip(Payloads::RequestHosting);
}

#[test]
fn round_trip_hosting_received() {
    round_trip(Payloads::HostingReceived { session_id: b"ABCDEF".to_vec() });
}

#[test]
fn round_trip_player_joined() {
    for &(a, b, c) in &[
        (false, false, false),
        (true, false, false),
        (false, true, false),
        (false, false, true),
        (true, true, true),
    ] {
        round_trip(Payloads::PlayerJoined {
            name: b"bob".to_vec(),
            in_control: a,
            is_observer: b,
            is_server: c,
        });
    }
}

#[test]
fn round_trip_player_joined_empty_name() {
    round_trip(Payloads::PlayerJoined {
        name: Vec::new(),
        in_control: false,
        is_observer: true,
        is_server: false,
    });
}

#[test]
fn round_trip_player_left() {
    round_trip(Payloads::PlayerLeft { name: b"bob".to_vec() });
}

#[test]
fn round_trip_update() {
    round_trip(Payloads::Update {
        data: vec![0, 1, 2, 254, 255],
        from: b"alice".to_vec(),
        is_unreliable: false,
        time: 1_700_000_000_123,
    });
}

#[test]
fn round_trip_update_unreliable_time_zero() {
    round_trip(Payloads::Update {
        data: Vec::new(),
        from: b"alice".to_vec(),
        is_unreliable: true,
        time: 0,
    });
}

#[test]
fn round_trip_transfer_control() {
    round_trip(Payloads::TransferControl { from: b"alice".to_vec(), to: b"bob".to_vec() });
}

#[test]
fn round_trip_set_observer() {
    round_trip(Payloads::SetObserver {
        from: b"host".to_vec(),
        to: b"bob".to_vec(),
        is_observer: true,
    });
}

#[test]
fn round_trip_set_host() {
    round_trip(Payloads::SetHost);
}

#[test]
fn round_trip_aircraft_definition() {
    round_trip(Payloads::AircraftDefinition { bytes: b"var: TITLE".to_vec() });
}

#[test]
fn round_trip_aircraft_definition_empty_blob() {
    round_trip(Payloads::AircraftDefinition { bytes: Vec::new() });
}

#[test]
fn round_trip_ready() {
    round_trip(Payloads::Ready);
}

#[test]
fn round_trip_heartbeat() {
    round_trip(Payloads::Heartbeat);
}

#[test]
fn encoding_starts_with_distinct_tags() {
    // One message per datagram: the first byte alone selects the variant.
    let a = encode(&Payloads::Ready);
    let b = encode(&Payloads::Heartbeat);
    let c = encode(&Payloads::SetHost);
    assert_eq!(a.len(), 1);
    assert_ne!(a[0], b[0]);
    assert_ne!(a[0], c[0]);
    assert_ne!(b[0], c[0]);
}

#[test]
fn decode_rejects_empty_input() {
    assert!(decode(&[]).is_err());
}

#[test]
fn decode_rejects_unknown_tag() {
    assert!(decode(&[0]).is_err());
    assert!(decode(&[200]).is_err());
}

#[test]
fn decode_rejects_truncated_length_prefix() {
    let mut bytes = encode(&Payloads::PlayerLeft { name: b"bob".to_vec() });
    bytes.truncate(5);
    assert!(decode(&bytes).is_err());
}

#[test]
fn decode_rejects_truncated_contents() {
    let mut bytes = encode(&Payloads::PlayerLeft { name: b"bob".to_vec() });
    bytes.pop();
    assert!(decode(&bytes).is_err());
}

#[test]
fn decode_rejects_trailing_bytes() {
    let mut bytes = encode(&Payloads::Ready);
    bytes.push(0);
    assert!(decode(&bytes).is_err());

    let mut bytes = encode(&Payloads::PlayerLeft { name: b"bob".to_vec() });
    bytes.push(7);
    assert!(decode(&bytes).is_err());
}

#[test]
fn decode_rejects_malformed_boolean_byte() {
    let good = encode(&Payloads::PlayerJoined {
        name: b"bob".to_vec(),
        in_control: false,
        is_observer: false,
        is_server: false,
    });
    // The in_control flag sits right after the length-prefixed name.
    let flag_at = 1 + 8 + 3;
    let mut bad = good.clone();
    bad[flag_at] = 2;
    assert!(decode(&bad).is_err());
    assert!(decode(&good).is_ok());
}

#[test]
fn decode_gives_exact_field_values() {
    let bytes = encode(&Payloads::Update {
        data: vec![9, 8, 7],
        from: b"carol".to_vec(),
        is_unreliable: true,
        time: 42,
    });
    match decode(&bytes).unwrap() {
        Payloads::Update { data, from, is_unreliable, time } => {
            assert_eq!(data, vec![9, 8, 7]);
            assert_eq!(from, b"carol".to_vec());
            assert!(is_unreliable);
            assert_eq!(time, 42);
        }
        other => panic!("decoded the wrong variant: {:?}", other),
    }
}
