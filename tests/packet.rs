use wontun::{HandshakeInit, HandshakeResponse, PackeParseError, Packet, PacketData, PeerName};

fn name_bytes(text: &str) -> Vec<u8> {
    let mut v = text.as_bytes().to_vec();
    v.resize(100, 0);
    v
}

#[test]
fn handshake_init_round_trip() {
    let name = PeerName::new("alice").unwrap();
    let msg = HandshakeInit { sender_name: name.as_ref(), assigned_idx: 0x0102_0304 };
    let mut buf = [0u8; 1504];
    let n = msg.format(&mut buf);
    assert_eq!(n, 105);
    assert_eq!(&buf[..5], &[1, 4, 3, 2, 1]);
    assert_eq!(&buf[5..105], name_bytes("alice").as_slice());
    match Packet::parse_from(&buf[..n]) {
        Ok(Packet::HandshakeInit(m)) => {
            assert_eq!(m.assigned_idx, 0x0102_0304);
            assert_eq!(m.sender_name.as_slice(), name.as_slice());
        }
        other => panic!("unexpected {:?}", other),
    }
}

#[test]
fn handshake_response_round_trip() {
    let msg = HandshakeResponse { assigned_idx: 7, sender_idx: 0xdead_beef };
    let mut buf = [0u8; 16];
    let n = msg.format(&mut buf);
    assert_eq!(n, 9);
    assert_eq!(&buf[..9], &[2, 7, 0, 0, 0, 0xef, 0xbe, 0xad, 0xde]);
    match Packet::parse_from(&buf[..n]) {
        Ok(Packet::HandshakeResponse(m)) => {
            assert_eq!(m.assigned_idx, 7);
            assert_eq!(m.sender_idx, 0xdead_beef);
        }
        other => panic!("unexpected {:?}", other),
    }
}

#[test]
fn data_round_trip_largest_payload() {
    let payload: Vec<u8> = (0..1499u32).map(|i| (i % 251) as u8).collect();
    let msg = PacketData { sender_idx: 3, data: &payload };
    let mut buf = [0u8; 1504];
    let n = msg.format(&mut buf);
    assert_eq!(n, 1504);
    match Packet::parse_from(&buf[..n]) {
        Ok(Packet::Data(m)) => {
            assert_eq!(m.sender_idx, 3);
            assert_eq!(m.data, payload.as_slice());
        }
        other => panic!("unexpected {:?}", other),
    }
}

#[test]
fn data_with_empty_payload() {
    let msg = PacketData { sender_idx: 0, data: &[] };
    let mut buf = [0xaau8; 8];
    let n = msg.format(&mut buf);
    assert_eq!(n, 5);
    assert_eq!(buf, [3, 0, 0, 0, 0, 0xaa, 0xaa, 0xaa]);
    match Packet::parse_from(&buf[..n]) {
        Ok(Packet::Data(m)) => assert!(m.data.is_empty()),
        other => panic!("unexpected {:?}", other),
    }
}

#[test]
fn malformed_init_length_is_protocol_error() {
    let buf = [1u8, 0, 0, 0, 0, 0, 0, 0];
    assert!(matches!(Packet::parse_from(&buf), Err(PackeParseError::ProtocolErr)));
}

#[test]
fn empty_datagram_is_empty() {
    assert!(matches!(Packet::parse_from(&[]), Ok(Packet::Empty)));
}

#[test]
fn other_malformed_datagrams() {
    assert!(matches!(Packet::parse_from(&[3, 0, 0, 0]), Err(PackeParseError::ProtocolErr)));
    assert!(matches!(Packet::parse_from(&[2, 0, 0, 0, 0, 0, 0, 0, 0, 0]), Err(PackeParseError::ProtocolErr)));
    assert!(matches!(Packet::parse_from(&[9, 0, 0, 0, 0, 0]), Err(PackeParseError::ProtocolErr)));
}

#[test]
fn peer_name_padding_and_limit() {
    let name = PeerName::new("bob").unwrap();
    assert_eq!(name.as_slice(), name_bytes("bob").as_slice());
    assert_eq!(PeerName::max_len(), 100);
    let exact = "x".repeat(100);
    assert_eq!(PeerName::new(&exact).unwrap().as_slice(), exact.as_bytes());
    let long = "y".repeat(101);
    let err = PeerName::new(&long).unwrap_err();
    assert_eq!(err.0, long);
    assert!(PeerName::new("bob").unwrap() == name);
    assert!(PeerName::new("bob2").unwrap() != name);
}
