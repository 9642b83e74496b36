use wontun::{
    Device, DeviceConfig, EventSource, HandshakeState, Packet, Peer, PeerName, SockAddr, Token,
    Transmit,
};

fn ip(a: u8, b: u8, c: u8, d: u8) -> u32 {
    u32::from_be_bytes([a, b, c, d])
}

fn device(name: &str, use_connected_peer: bool) -> Device<u32> {
    Device::new(DeviceConfig {
        name: PeerName::new(name).unwrap(),
        use_connected_peer,
        listen_port: 19988,
        tun_name: "tun0",
        fwmark: None,
    })
}

fn peer(endpoint: Option<SockAddr>, allowed: u32) -> Peer<u32> {
    let mut p = Peer::new();
    if let Some(a) = endpoint {
        assert_eq!(p.set_endpoint(a), (true, None));
    }
    p.add_allowed_ip(allowed, 32);
    p
}

fn ipv4_packet(src: u32, dst: u32, len: usize) -> Vec<u8> {
    let mut p = vec![0u8; len];
    p[0] = 0x45;
    p[2..4].copy_from_slice(&(len as u16).to_be_bytes());
    p[8] = 64;
    p[9] = 17;
    p[12..16].copy_from_slice(&src.to_be_bytes());
    p[16..20].copy_from_slice(&dst.to_be_bytes());
    p
}

const A_ADDR: SockAddr = SockAddr { ip: 0x0a00_0001, port: 19988 };
const B_ADDR: SockAddr = SockAddr { ip: 0x0a00_0002, port: 19988 };

/// Alice's device knows bob, bob's knows alice; each side gets one peer
/// with index 0.
fn pair() -> (Device<u32>, Device<u32>) {
    let mut a = device("alice", false);
    a.add_peer(PeerName::new("bob").unwrap(), peer(Some(B_ADDR), ip(192, 0, 2, 3)));
    let mut b = device("bob", false);
    b.add_peer(PeerName::new("alice").unwrap(), peer(Some(A_ADDR), ip(192, 0, 2, 2)));
    (a, b)
}

fn sent_udp(t: Transmit<'_>) -> (SockAddr, Vec<u8>) {
    match t {
        Transmit::Udp(addr, d) => (addr, d.to_vec()),
        other => panic!("expected a datagram, got {:?}", other),
    }
}

fn deliver_from(dev: &mut Device<u32>, from: SockAddr, datagram: &[u8], buf: &mut [u8]) -> Vec<u8> {
    let arrival = dev.receive(from, datagram).expect("datagram names a peer");
    match dev.deliver(arrival.peer, arrival.packet, buf) {
        Transmit::Udp(_, d) | Transmit::Conn(_, d) | Transmit::Tun(d) => d.to_vec(),
        Transmit::Nothing => Vec::new(),
    }
}

fn handshake(a: &mut Device<u32>, b: &mut Device<u32>) {
    let mut buf = [0u8; 1504];
    let (_, init) = sent_udp(a.start_peer(0, &mut buf));
    let mut buf = [0u8; 1504];
    let response = deliver_from(b, A_ADDR, &init, &mut buf);
    let mut buf = [0u8; 1504];
    let priming = deliver_from(a, B_ADDR, &response, &mut buf);
    let mut buf = [0u8; 1504];
    let nothing = deliver_from(b, A_ADDR, &priming, &mut buf);
    assert!(nothing.is_empty());
}

#[test]
fn two_peer_handshake() {
    let (mut a, mut b) = pair();
    let mut buf = [0u8; 1504];
    let (to, init) = sent_udp(a.start_peer(0, &mut buf));
    assert_eq!(to, B_ADDR);
    assert_eq!(init.len(), 105);
    assert_eq!(&init[..5], &[1, 0, 0, 0, 0]);
    assert_eq!(&init[5..10], b"alice");
    assert!(init[10..].iter().all(|&x| x == 0));
    assert_eq!(a.peer(0).handshake_state(), HandshakeState::HandshakeSent);

    let mut buf = [0u8; 1504];
    let response = deliver_from(&mut b, A_ADDR, &init, &mut buf);
    assert_eq!(response, vec![2, 0, 0, 0, 0, 0, 0, 0, 0]);
    assert_eq!(b.peer(0).handshake_state(), HandshakeState::HandshakeReceived { remote_idx: 0 });

    let mut buf = [0u8; 1504];
    let priming = deliver_from(&mut a, B_ADDR, &response, &mut buf);
    assert_eq!(priming, vec![3, 0, 0, 0, 0]);
    assert_eq!(a.peer(0).handshake_state(), HandshakeState::Connected { remote_idx: 0 });

    let mut buf = [0u8; 1504];
    deliver_from(&mut b, A_ADDR, &priming, &mut buf);
    assert_eq!(b.peer(0).handshake_state(), HandshakeState::Connected { remote_idx: 0 });
}

#[test]
fn data_forward() {
    let (mut a, mut b) = pair();
    handshake(&mut a, &mut b);
    let inner = ipv4_packet(ip(192, 0, 2, 2), ip(192, 0, 2, 3), 76);
    let mut buf = [0u8; 1504];
    let (to, framed) = sent_udp(a.handle_tun(&inner, &mut buf));
    assert_eq!(to, B_ADDR);
    assert_eq!(&framed[..5], &[3, 0, 0, 0, 0]);
    assert_eq!(&framed[5..], inner.as_slice());
    let arrival = b.receive(A_ADDR, &framed).unwrap();
    let mut buf = [0u8; 1504];
    match b.deliver(arrival.peer, arrival.packet, &mut buf) {
        Transmit::Tun(d) => assert_eq!(d, inner.as_slice()),
        other => panic!("expected a TUN write, got {:?}", other),
    }
}

#[test]
fn disallowed_source_is_dropped() {
    let (mut a, mut b) = pair();
    handshake(&mut a, &mut b);
    let inner = ipv4_packet(ip(192, 0, 2, 99), ip(192, 0, 2, 3), 76);
    let mut buf = [0u8; 1504];
    let (_, framed) = sent_udp(a.handle_tun(&inner, &mut buf));
    let arrival = b.receive(A_ADDR, &framed).unwrap();
    let mut buf = [0u8; 1504];
    assert!(matches!(b.deliver(arrival.peer, arrival.packet, &mut buf), Transmit::Nothing));
}

#[test]
fn tun_packet_without_route_or_session() {
    let (a, _) = pair();
    let inner = ipv4_packet(ip(192, 0, 2, 2), ip(192, 0, 2, 3), 40);
    let mut buf = [0u8; 1504];
    assert!(matches!(a.handle_tun(&inner, &mut buf), Transmit::Nothing));
    let elsewhere = ipv4_packet(ip(192, 0, 2, 2), ip(198, 51, 100, 1), 40);
    let mut buf = [0u8; 1504];
    assert!(matches!(a.handle_tun(&elsewhere, &mut buf), Transmit::Nothing));
    let mut buf = [0u8; 1504];
    assert!(matches!(a.handle_tun(&[0x60, 0, 0, 0], &mut buf), Transmit::Nothing));
}

#[test]
fn endpoint_migration() {
    let mut a = device("alice", true);
    a.add_peer(PeerName::new("bob").unwrap(), peer(Some(B_ADDR), ip(192, 0, 2, 3)));
    a.connect_peer(0, 100);
    assert_eq!(a.peer(0).endpoint().conn, Some(100));
    let moved = SockAddr { ip: 0x0a00_0005, port: 19988 };
    let datagram = [3u8, 0, 0, 0, 0];
    let arrival = a.receive(moved, &datagram).unwrap();
    assert_eq!(arrival.peer, 0);
    assert!(arrival.endpoint_changed);
    assert_eq!(arrival.taken_conn, Some(100));
    assert!(arrival.connect);
    assert_eq!(a.peer(0).endpoint().addr, Some(moved));
    assert_eq!(a.peer(0).endpoint().conn, None);
    assert_eq!(a.event_source(Token::Sock(0)), EventSource::Ignore);
    a.connect_peer(arrival.peer, 101);
    assert_eq!(a.event_source(Token::Sock(0)), EventSource::ConnectedPeer(0));

    let again = a.receive(moved, &datagram).unwrap();
    assert!(!again.endpoint_changed);
    assert_eq!(again.taken_conn, None);
    assert!(!again.connect);
    assert_eq!(a.peer(0).endpoint().conn, Some(101));
}

#[test]
fn malformed_datagram_changes_nothing() {
    let (_, mut b) = pair();
    assert!(b.receive(SockAddr { ip: 1, port: 2 }, &[1, 0, 0, 0, 0, 0, 0, 0]).is_none());
    assert_eq!(b.peer(0).endpoint().addr, Some(A_ADDR));
    assert_eq!(b.peer(0).handshake_state(), HandshakeState::Idle);
}

#[test]
fn empty_datagram_changes_nothing() {
    let (_, mut b) = pair();
    assert!(b.receive(SockAddr { ip: 1, port: 2 }, &[]).is_none());
    assert_eq!(b.peer(0).endpoint().addr, Some(A_ADDR));
    let mut buf = [0u8; 16];
    assert!(matches!(b.receive_connected(0, &[], &mut buf), Transmit::Nothing));
    assert_eq!(b.peer(0).handshake_state(), HandshakeState::Idle);
}

#[test]
fn unknown_peer_is_dropped() {
    let (_, mut b) = pair();
    assert!(b.receive(A_ADDR, &[3, 5, 0, 0, 0, 1, 2]).is_none());
    let name = PeerName::new("mallory").unwrap();
    let mut dg = vec![1u8, 0, 0, 0, 0];
    dg.extend_from_slice(name.as_slice());
    assert!(b.receive(A_ADDR, &dg).is_none());
}

#[test]
fn rehandshake_from_connected() {
    let (mut a, mut b) = pair();
    handshake(&mut a, &mut b);
    let name = PeerName::new("alice").unwrap();
    let mut init = vec![1u8, 7, 0, 0, 0];
    init.extend_from_slice(name.as_slice());
    let mut buf = [0u8; 1504];
    let response = deliver_from(&mut b, A_ADDR, &init, &mut buf);
    assert_eq!(response, vec![2, 0, 0, 0, 0, 7, 0, 0, 0]);
    assert_eq!(b.peer(0).handshake_state(), HandshakeState::HandshakeReceived { remote_idx: 7 });
    let inner = ipv4_packet(ip(192, 0, 2, 3), ip(192, 0, 2, 2), 40);
    let mut buf = [0u8; 1504];
    assert!(matches!(b.handle_tun(&inner, &mut buf), Transmit::Nothing));
}

#[test]
fn handshake_needs_endpoint_and_idle_state() {
    let mut a = device("alice", false);
    a.add_peer(PeerName::new("bob").unwrap(), peer(None, ip(192, 0, 2, 3)));
    let mut buf = [0u8; 1504];
    assert!(matches!(a.start_peer(0, &mut buf), Transmit::Nothing));
    assert_eq!(a.peer(0).handshake_state(), HandshakeState::Idle);
    let (mut a, _) = pair();
    let mut buf = [0u8; 1504];
    sent_udp(a.start_peer(0, &mut buf));
    let mut buf = [0u8; 1504];
    assert!(matches!(a.start_peer(0, &mut buf), Transmit::Nothing));
}

#[test]
fn peers_get_increasing_indices_and_routes() {
    let mut d = device("hub", false);
    d.add_peer(PeerName::new("one").unwrap(), peer(None, ip(10, 0, 0, 1)));
    d.add_peer(PeerName::new("two").unwrap(), peer(None, ip(10, 0, 0, 2)));
    assert_eq!(d.num_peers(), 2);
    assert_eq!(d.peer(1).local_idx(), 1);
    assert_eq!(d.peer_index_by_name(PeerName::new("two").unwrap().as_slice()), Some(1));
    assert_eq!(d.peer_index_by_name(PeerName::new("three").unwrap().as_slice()), None);
    assert_eq!(d.event_source(Token::Tun), EventSource::Tun);
    assert_eq!(d.event_source(Token::Sock(-1)), EventSource::Unconnected);
    assert_eq!(d.event_source(Token::Sock(5)), EventSource::Ignore);
}

#[test]
fn set_endpoint_twice() {
    let mut p: Peer<u32> = Peer::new();
    let a = SockAddr { ip: 1, port: 2 };
    assert_eq!(p.set_endpoint(a), (true, None));
    assert_eq!(p.set_endpoint(a), (false, None));
    assert_eq!(p.endpoint().addr, Some(a));
}

#[test]
fn allowed_ip_check() {
    let mut p: Peer<u32> = Peer::new();
    p.add_allowed_ip(ip(192, 0, 2, 0), 24);
    assert!(p.is_allowed_ip(ip(192, 0, 2, 200)));
    assert!(!p.is_allowed_ip(ip(192, 0, 3, 1)));
    let _ = Packet::parse_from(&[]);
}
