use ssh_proxy::addr::{IpAddr, Ipv4Addr, SocketAddr};
use ssh_proxy::host::dns::DnsState;
use ssh_proxy::host::forward::{
    handle_outbound_tcp, handle_outbound_udp, handle_outbound_udp_at, handle_remote_message,
    handle_tun_packet, HostAction, HostOutput,
};
use ssh_proxy::host::nat_table::{ConnectionState, NatTable, TcpKey};
use ssh_proxy::packet::{
    build_tcp_packet, build_udp_packet, parse_ip_packet, PacketError, ParsedPacket, TcpFlags,
    TcpPacketInfo, UdpPacketInfo,
};
use ssh_proxy::protocol::{HostMessage, RemoteMessage};

fn app() -> IpAddr {
    IpAddr::V4(Ipv4Addr::new(10, 0, 0, 1))
}

fn server() -> IpAddr {
    IpAddr::V4(Ipv4Addr::new(192, 168, 1, 1))
}

fn key() -> TcpKey {
    (app(), 40000, server(), 80)
}

fn segment(seq: u32, flags: TcpFlags, payload: &[u8]) -> TcpPacketInfo {
    TcpPacketInfo {
        src_ip: app(),
        dst_ip: server(),
        src_port: 40000,
        dst_port: 80,
        seq,
        ack: 0,
        flags,
        window: 1024,
        payload: payload.to_vec(),
    }
}

fn flags(letters: &str) -> TcpFlags {
    TcpFlags {
        syn: letters.contains('S'),
        ack: letters.contains('A'),
        fin: letters.contains('F'),
        rst: letters.contains('R'),
        psh: letters.contains('P'),
    }
}

/// The one segment that an action writes: its numbers, flags, window and payload.
fn written(action: &HostAction) -> (u32, u32, TcpFlags, u16, Vec<u8>) {
    match action {
        HostAction::TcpToTun(tcp) => {
            assert_eq!((tcp.src_ip, tcp.src_port), (server(), 80));
            assert_eq!((tcp.dst_ip, tcp.dst_port), (app(), 40000));
            (tcp.seq, tcp.ack, tcp.flags, tcp.window, tcp.payload.clone())
        }
        other => panic!("Expected a segment, not {:?}", other),
    }
}

fn established() -> (NatTable, u32) {
    let mut nat = NatTable::new();
    let actions = handle_outbound_tcp(segment(5000, flags("S"), &[]), &mut nat);
    let id = match &actions[..] {
        [HostAction::ToRemote(HostMessage::TcpConnect { id, dst_ip, dst_port })] => {
            assert_eq!((*dst_ip, *dst_port), (server(), 80));
            *id
        }
        other => panic!("Expected a connect request, not {:?}", other),
    };
    let actions =
        handle_remote_message(RemoteMessage::TcpConnected { id }, &mut nat, &mut None);
    assert_eq!(actions.len(), 1);
    assert_eq!(written(&actions[0]), (1000, 5001, flags("SA"), 65535, vec![]));
    assert_eq!(nat.get_tcp_state(&key()), Some(ConnectionState::Established));
    assert_eq!(nat.get_tcp_seq(id), 1001);
    (nat, id)
}

#[test]
fn handshake() {
    let (nat, id) = established();
    assert_eq!(nat.get_tcp_connection_id(&key()), Some(id));
}

#[test]
fn data_from_the_app() {
    let (mut nat, id) = established();
    let actions = handle_outbound_tcp(segment(5001, flags("PA"), b"hello"), &mut nat);
    match &actions[..] {
        [HostAction::ToRemote(HostMessage::TcpData { id: i, data })] => {
            assert_eq!((*i, &data[..]), (id, &b"hello"[..]));
        }
        other => panic!("Expected data, not {:?}", other),
    }
    assert_eq!(nat.get_tcp_ack(id), 5006);
    // A bare ACK says nothing
    assert!(handle_outbound_tcp(segment(5006, flags("A"), &[]), &mut nat).is_empty());
}

#[test]
fn data_from_the_remote_is_contiguous() {
    let (mut nat, id) = established();
    let mut send = |data: &[u8]| {
        let msg = RemoteMessage::TcpData { id, data: data.to_vec() };
        written(&handle_remote_message(msg, &mut nat, &mut None)[0])
    };
    assert_eq!(send(b"abc"), (1001, 5001, flags("PA"), 65535, b"abc".to_vec()));
    assert_eq!(send(b"de"), (1004, 5001, flags("PA"), 65535, b"de".to_vec()));
    assert_eq!(send(b"f"), (1006, 5001, flags("PA"), 65535, b"f".to_vec()));
}

#[test]
fn the_app_closes_first() {
    let (mut nat, id) = established();
    let actions = handle_outbound_tcp(segment(5001, flags("FA"), b"bye"), &mut nat);
    assert_eq!(actions.len(), 3);
    assert!(matches!(
        &actions[0],
        HostAction::ToRemote(HostMessage::TcpData { id: i, data }) if *i == id && data == b"bye"
    ));
    assert_eq!(written(&actions[1]), (1001, 5005, flags("A"), 65535, vec![]));
    assert!(matches!(
        &actions[2],
        HostAction::ToRemote(HostMessage::TcpClose { id: i }) if *i == id
    ));
    assert_eq!(nat.get_tcp_state(&key()), Some(ConnectionState::FinWait));
    // Packets of the app do not count any more
    assert!(handle_outbound_tcp(segment(5005, flags("A"), b"x"), &mut nat).is_empty());
    let actions = handle_remote_message(RemoteMessage::TcpClosed { id }, &mut nat, &mut None);
    assert_eq!(written(&actions[0]), (1001, 5005, flags("FA"), 65535, vec![]));
    assert_eq!(nat.get_tcp_state(&key()), Some(ConnectionState::LastAck));
    assert!(handle_outbound_tcp(segment(5005, flags("P"), &[]), &mut nat).is_empty());
    assert_eq!(nat.get_tcp_state(&key()), Some(ConnectionState::LastAck));
    assert!(handle_outbound_tcp(segment(5005, flags("A"), &[]), &mut nat).is_empty());
    assert_eq!(nat.get_tcp_state(&key()), None);
    assert_eq!(nat.get_tcp_connection_key(id), None);
}

#[test]
fn the_remote_closes_first() {
    let (mut nat, id) = established();
    let actions = handle_remote_message(RemoteMessage::TcpClosed { id }, &mut nat, &mut None);
    assert_eq!(written(&actions[0]), (1001, 5001, flags("FA"), 65535, vec![]));
    assert_eq!(nat.get_tcp_state(&key()), Some(ConnectionState::CloseWait));
    assert!(handle_outbound_tcp(segment(5001, flags("A"), &[]), &mut nat).is_empty());
    let actions = handle_outbound_tcp(segment(5001, flags("FA"), &[]), &mut nat);
    assert_eq!(actions.len(), 1);
    assert_eq!(written(&actions[0]), (1002, 5002, flags("A"), 65535, vec![]));
    assert_eq!(nat.get_tcp_state(&key()), None);
    assert_eq!(nat.get_tcp_connection_key(id), None);
}

#[test]
fn closing_in_another_state_cleans_up() {
    let mut nat = NatTable::new();
    let id = nat.create_tcp_connection(key(), 1);
    let actions = handle_remote_message(RemoteMessage::TcpClosed { id }, &mut nat, &mut None);
    assert!(actions.is_empty());
    assert_eq!(nat.get_tcp_connection_key(id), None);
}

#[test]
fn rst_closes_in_every_state() {
    for state in [
        ConnectionState::SynSent,
        ConnectionState::Established,
        ConnectionState::FinWait,
        ConnectionState::CloseWait,
        ConnectionState::LastAck,
        ConnectionState::Closed,
    ] {
        let mut nat = NatTable::new();
        let id = nat.create_tcp_connection(key(), 1);
        nat.set_tcp_state(&key(), state);
        let actions = handle_outbound_tcp(segment(2, flags("RA"), b"x"), &mut nat);
        assert!(matches!(
            &actions[..],
            [HostAction::ToRemote(HostMessage::TcpClose { id: i })] if *i == id
        ));
        assert_eq!(nat.get_tcp_state(&key()), None);
    }
}

#[test]
fn a_failed_connection_is_reset() {
    let (mut nat, id) = established();
    let msg = RemoteMessage::TcpError { id, error: "refused".to_string() };
    let actions = handle_remote_message(msg, &mut nat, &mut None);
    assert_eq!(written(&actions[0]), (0, 0, flags("R"), 0, vec![]));
    assert_eq!(nat.get_tcp_connection_key(id), None);
}

#[test]
fn unknown_connections_are_ignored() {
    let mut nat = NatTable::new();
    assert!(handle_outbound_tcp(segment(1, flags("A"), b"x"), &mut nat).is_empty());
    assert!(handle_outbound_tcp(segment(1, flags("SA"), b"x"), &mut nat).is_empty());
    for msg in [
        RemoteMessage::TcpConnected { id: 7 },
        RemoteMessage::TcpData { id: 7, data: vec![1] },
        RemoteMessage::TcpClosed { id: 7 },
        RemoteMessage::TcpError { id: 7, error: String::new() },
        RemoteMessage::Ready,
        RemoteMessage::Error { error: String::new() },
        RemoteMessage::DnsResponse { id: 7, data: vec![] },
        RemoteMessage::UdpResponse { dst_port: 1, src_ip: app(), src_port: 2, data: vec![] },
    ] {
        assert!(handle_remote_message(msg, &mut nat, &mut None).is_empty());
    }
}

fn datagram(payload: &[u8]) -> UdpPacketInfo {
    UdpPacketInfo {
        src_ip: app(),
        dst_ip: server(),
        src_port: 5353,
        dst_port: 53,
        payload: payload.to_vec(),
    }
}

#[test]
fn a_datagram_and_its_answer() {
    let mut nat = NatTable::new();
    let actions = handle_outbound_udp(datagram(b"ping"), &mut nat);
    match &actions[..] {
        [HostAction::ToRemote(HostMessage::UdpDatagram { src_port, dst_ip, dst_port, data })] => {
            assert_eq!((*src_port, *dst_ip, *dst_port), (5353, server(), 53));
            assert_eq!(data, b"ping");
        }
        other => panic!("Expected a datagram, not {:?}", other),
    }
    let msg = RemoteMessage::UdpResponse {
        dst_port: 5353,
        src_ip: server(),
        src_port: 53,
        data: b"pong".to_vec(),
    };
    let actions = handle_remote_message(msg, &mut nat, &mut None);
    match &actions[..] {
        [HostAction::UdpToTun(udp)] => {
            assert_eq!((udp.src_ip, udp.src_port), (server(), 53));
            assert_eq!((udp.dst_ip, udp.dst_port), (app(), 5353));
            assert_eq!(udp.payload, b"pong");
        }
        other => panic!("Expected a datagram, not {:?}", other),
    }
}

#[test]
fn an_answer_that_comes_too_late() {
    let mut nat = NatTable::new();
    assert_eq!(handle_outbound_udp_at(datagram(b"ping"), &mut nat, 0, 60_000_000_000).len(), 1);
    let msg = RemoteMessage::UdpResponse {
        dst_port: 5353,
        src_ip: server(),
        src_port: 53,
        data: vec![],
    };
    assert!(handle_remote_message(msg, &mut nat, &mut None).is_empty());
}

#[test]
fn a_dns_answer_goes_to_its_client_once() {
    let mut nat = NatTable::new();
    let client = SocketAddr { ip: app(), port: 999 };
    let mut state = DnsState::new(server());
    let id = match state.handle_query(b"who", client) {
        HostMessage::DnsQuery { id, server: s, data } => {
            assert_eq!(s, server());
            assert_eq!(data, b"who");
            id
        }
        other => panic!("Expected a query, not {:?}", other),
    };
    let mut dns = Some(state);
    let answer = || RemoteMessage::DnsResponse { id, data: b"me".to_vec() };
    match &handle_remote_message(answer(), &mut nat, &mut dns)[..] {
        [HostAction::DnsReply { client: c, data }] => {
            assert_eq!(*c, client);
            assert_eq!(data, b"me");
        }
        other => panic!("Expected an answer, not {:?}", other),
    }
    assert!(handle_remote_message(answer(), &mut nat, &mut dns).is_empty());
}

#[test]
fn packets_from_the_interface() {
    let mut nat = NatTable::new();
    let syn = build_tcp_packet(app(), server(), 40000, 80, 7, 0, flags("S"), 1, &[]);
    assert!(matches!(
        &handle_tun_packet(&syn, &mut nat).unwrap()[..],
        [HostAction::ToRemote(HostMessage::TcpConnect { .. })]
    ));
    assert_eq!(nat.get_tcp_ack(1), 8);
    let udp = build_udp_packet(app(), server(), 1, 2, b"x");
    assert!(matches!(
        &handle_tun_packet(&udp, &mut nat).unwrap()[..],
        [HostAction::ToRemote(HostMessage::UdpDatagram { .. })]
    ));
    let mut icmp = udp.clone();
    icmp[9] = 1;
    assert!(handle_tun_packet(&icmp, &mut nat).unwrap().is_empty());
    assert!(matches!(handle_tun_packet(&[], &mut nat), Err(PacketError::Empty)));
}

#[test]
fn actions_become_packets() {
    let (mut nat, id) = established();
    let msg = RemoteMessage::TcpData { id, data: b"abc".to_vec() };
    let action = handle_remote_message(msg, &mut nat, &mut None).remove(0);
    assert!(action.is_buildable());
    match action.into_output() {
        HostOutput::ToTun(packet) => match parse_ip_packet(&packet).unwrap() {
            ParsedPacket::Tcp(tcp) => {
                assert_eq!((tcp.src_ip, tcp.dst_ip), (server(), app()));
                assert_eq!((tcp.seq, tcp.ack), (1001, 5001));
                assert_eq!(tcp.payload, b"abc");
            }
            _ => panic!("Expected TCP packet"),
        },
        other => panic!("Expected a packet, not {:?}", other),
    }
    let msg = RemoteMessage::TcpData { id, data: vec![0; 65536] };
    assert!(!handle_remote_message(msg, &mut nat, &mut None)[0].is_buildable());
    let udp = HostAction::UdpToTun(datagram(b"x"));
    assert!(matches!(udp.into_output(), HostOutput::ToTun(packet) if packet.len() == 29));
    let close = HostAction::ToRemote(HostMessage::TcpClose { id: 3 });
    assert!(matches!(
        close.into_output(),
        HostOutput::ToRemote(HostMessage::TcpClose { id: 3 })
    ));
    let client = SocketAddr { ip: app(), port: 1 };
    let reply = HostAction::DnsReply { client, data: vec![9] };
    assert!(matches!(
        reply.into_output(),
        HostOutput::DnsReply { client: c, data } if c == client && data == [9]
    ));
}

#[test]
fn the_way_back_stays_while_it_is_fresh() {
    let (mut nat, id) = established();
    handle_outbound_udp_at(datagram(b"ping"), &mut nat, 100, 100);
    handle_outbound_tcp(segment(5001, flags("PA"), b"x"), &mut nat);
    handle_remote_message(RemoteMessage::TcpClosed { id }, &mut nat, &mut None);
    let other = |port| UdpPacketInfo { src_port: port, ..datagram(b"other") };
    handle_outbound_udp_at(other(1), &mut nat, 5_000, 60_000_000_099);
    let answer = || RemoteMessage::UdpResponse {
        dst_port: 5353,
        src_ip: server(),
        src_port: 53,
        data: b"pong".to_vec(),
    };
    assert!(matches!(
        &handle_remote_message(answer(), &mut nat, &mut None)[..],
        [HostAction::UdpToTun(udp)] if udp.dst_ip == app() && udp.payload == b"pong"
    ));
    // The same sender makes it fresh again
    handle_outbound_udp_at(datagram(b"ping"), &mut nat, 60_000_000_000, 60_000_000_000);
    handle_outbound_udp_at(other(2), &mut nat, 70_000_000_000, 70_000_000_000);
    assert_eq!(handle_remote_message(answer(), &mut nat, &mut None).len(), 1);
    handle_outbound_udp_at(other(3), &mut nat, 120_000_000_000, 120_000_000_000);
    assert!(handle_remote_message(answer(), &mut nat, &mut None).is_empty());
}
