use ssh_proxy::addr::{IpAddr, Ipv4Addr, Ipv6Addr, SocketAddr};
use ssh_proxy::host::forward::{HostAction, HostOutput};
use ssh_proxy::host::nat_table::{ConnectionState, NatTable, TcpKey};
use ssh_proxy::host::session::{HostEvent, HostProxy};
use ssh_proxy::host::ssh::{
    check_server_key, continue_login, AuthMethod, HostKeyEvent, HostKeyStep, IdentityOutcome,
    KeyboardReply, LoginEvent, LoginStep, SshConfig,
};
use ssh_proxy::packet::{
    build_tcp_packet, build_udp_packet, parse_ip_packet, ParsedPacket, TcpFlags, TcpPacketInfo,
    UdpPacketInfo,
};
use ssh_proxy::protocol::{HostMessage, RemoteMessage};
use ssh_proxy::remote::proxy::{
    dns_replies, handle_tcp_connection, udp_answers, udp_replies, RelayEvent, UdpOutcome,
};
use ssh_proxy::remote::{RemoteAction, RemoteEvent, RemoteProxy};

fn v4() -> (IpAddr, IpAddr) {
    (IpAddr::V4(Ipv4Addr::new(10, 0, 0, 1)), IpAddr::V4(Ipv4Addr::new(192, 168, 1, 1)))
}

fn v6() -> (IpAddr, IpAddr) {
    (
        IpAddr::V6(Ipv6Addr::new(0xfd00, 0, 0, 0, 0, 0, 0, 1)),
        IpAddr::V6(Ipv6Addr::new(0x2001, 0xdb8, 0, 0, 0, 0, 0, 1)),
    )
}

/// The messages that go to the remote.
fn messages(actions: Vec<HostAction>) -> Vec<HostMessage> {
    let mut list = vec![];
    for action in actions {
        if let HostOutput::ToRemote(msg) = action.into_output() {
            list.push(msg);
        }
    }
    list
}

/// The packets that go to the application.
fn packets(actions: Vec<HostAction>) -> Vec<ParsedPacket> {
    let mut list = vec![];
    for action in actions {
        assert!(action.is_buildable());
        if let HostOutput::ToTun(packet) = action.into_output() {
            list.push(parse_ip_packet(&packet).unwrap());
        }
    }
    list
}

fn segments(actions: Vec<HostAction>) -> Vec<TcpPacketInfo> {
    packets(actions)
        .into_iter()
        .map(|p| match p {
            ParsedPacket::Tcp(tcp) => tcp,
            other => panic!("Expected TCP, not {:?}", other),
        })
        .collect()
}

fn datagrams(actions: Vec<HostAction>) -> Vec<UdpPacketInfo> {
    packets(actions)
        .into_iter()
        .map(|p| match p {
            ParsedPacket::Udp(udp) => udp,
            other => panic!("Expected UDP, not {:?}", other),
        })
        .collect()
}

#[test]
fn udp_through_the_tunnel() {
    for (app, server) in [v4(), v6()] {
        let mut host = HostProxy::new(None);
        let (mut remote, _) = RemoteProxy::new();
        let packet = build_udp_packet(app, server, 5000, 7, b"ping");
        let msg = messages(host.handle_event(HostEvent::TunPacket(packet))).remove(0);
        let src_port = match remote.handle_host_message(msg) {
            RemoteAction::SendUdp { src_port, dst_ip, dst_port, data } => {
                assert_eq!((dst_ip, dst_port, &data[..]), (server, 7, &b"ping"[..]));
                src_port
            }
            other => panic!("Expected a datagram, not {:?}", other),
        };
        let from = SocketAddr { ip: server, port: 7 };
        let answers = udp_answers(UdpOutcome::Received { from, data: b"pong".to_vec() }).unwrap();
        let reply = udp_replies(src_port, answers).remove(0);
        let back = datagrams(host.handle_event(HostEvent::Message(reply)));
        assert_eq!(back.len(), 1);
        assert_eq!((back[0].src_ip, back[0].src_port), (server, 7));
        assert_eq!((back[0].dst_ip, back[0].dst_port), (app, 5000));
        assert_eq!(back[0].payload, b"pong");
    }
}

#[test]
fn dns_through_the_tunnel() {
    let (client_ip, server) = v4();
    let mut host = HostProxy::new(Some(server));
    let (mut remote, _) = RemoteProxy::new();
    let sender = SocketAddr { ip: client_ip, port: 3333 };
    let query = HostEvent::DnsQuery { data: b"name?".to_vec(), sender };
    let msg = messages(host.handle_event(query)).remove(0);
    let id = match remote.handle_host_message(msg) {
        RemoteAction::SendDns { id, server: s, data } => {
            assert_eq!((s, &data[..]), (server, &b"name?"[..]));
            id
        }
        other => panic!("Expected a query, not {:?}", other),
    };
    let reply = dns_replies(id, vec![(server, 53, b"answer".to_vec())]).remove(0);
    let actions = host.handle_event(HostEvent::Message(reply));
    assert!(matches!(
        &actions[..],
        [HostAction::DnsReply { client, data }] if *client == sender && data == b"answer"
    ));
}

fn flags(letters: &str) -> TcpFlags {
    TcpFlags {
        syn: letters.contains('S'),
        ack: letters.contains('A'),
        fin: letters.contains('F'),
        rst: letters.contains('R'),
        psh: letters.contains('P'),
    }
}

#[test]
fn tcp_through_the_tunnel() {
    for (app, server) in [v4(), v6()] {
        let mut host = HostProxy::new(None);
        let (mut remote, _) = RemoteProxy::new();
        let packet = |seq, letters: &str, data: &[u8]| {
            let p = build_tcp_packet(app, server, 4000, 80, seq, 1, flags(letters), 999, data);
            HostEvent::TunPacket(p)
        };

        // Connect
        let msg = messages(host.handle_event(packet(100, "S", b""))).remove(0);
        let id = match remote.handle_host_message(msg) {
            RemoteAction::Connect { id, dst_ip, dst_port } => {
                assert_eq!((dst_ip, dst_port), (server, 80));
                id
            }
            other => panic!("Expected a connect request, not {:?}", other),
        };
        let (up, slot, _) = remote.connect_finished(id);
        let syn_ack = segments(host.handle_event(HostEvent::Message(up))).remove(0);
        assert_eq!((syn_ack.seq, syn_ack.ack, syn_ack.flags), (1000, 101, flags("SA")));

        // Send
        let msg = messages(host.handle_event(packet(101, "PA", b"hello"))).remove(0);
        match remote.handle_host_message(msg) {
            RemoteAction::Deliver { slot: s, data, .. } => {
                assert_eq!(s, slot);
                let step = handle_tcp_connection(id, RelayEvent::FromHost(data));
                assert_eq!(step.write, Some(b"hello".to_vec()));
            }
            other => panic!("Expected data, not {:?}", other),
        }

        // Receive
        let step = handle_tcp_connection(id, RelayEvent::FromDestination(b"world!".to_vec()));
        for msg in step.report {
            let got = segments(host.handle_event(HostEvent::Message(msg))).remove(0);
            assert_eq!((got.src_ip, got.dst_ip), (server, app));
            assert_eq!((got.seq, got.ack), (1001, 106));
            assert_eq!(got.payload, b"world!");
        }

        // Close
        let actions = host.handle_event(packet(106, "FA", b""));
        let mut list = messages(actions);
        assert_eq!(list.len(), 1);
        let action = remote.handle_host_message(list.remove(0));
        assert!(matches!(action, RemoteAction::HangUp { slot: s } if s == slot));
        let step = handle_tcp_connection(id, RelayEvent::HostHungUp);
        assert!(step.done);
        for msg in step.report {
            let fin = segments(host.handle_event(HostEvent::Message(msg))).remove(0);
            assert_eq!((fin.seq, fin.ack, fin.flags), (1007, 107, flags("FA")));
        }
        assert!(host.handle_event(packet(107, "A", b"")).is_empty());
        assert_eq!(host.table.get_tcp_connection_key(id), None);
    }
}

#[test]
fn the_host_stops_the_remote() {
    let mut host = HostProxy::new(None);
    let (mut remote, _) = RemoteProxy::new();
    let mut list = messages(host.handle_event(HostEvent::Interrupt));
    assert_eq!(list.len(), 1);
    remote.handle_event(RemoteEvent::Message(list.remove(0)));
    assert!(!remote.is_running());
}

#[test]
fn a_packet_touches_its_own_connection_only() {
    let (app, server) = v4();
    let mut host = HostProxy::new(None);
    let event = |port, seq, letters: &str, data: &[u8]| {
        let p = build_tcp_packet(app, server, port, 80, seq, 0, flags(letters), 1, data);
        HostEvent::TunPacket(p)
    };
    host.handle_event(event(1, 10, "S", b""));
    host.handle_event(event(2, 20, "S", b""));
    host.handle_event(HostEvent::Message(RemoteMessage::TcpConnected { id: 1 }));
    host.handle_event(event(1, 11, "PA", b"abc"));
    assert_eq!(host.table.get_tcp_ack(1), 14);
    assert_eq!(host.table.get_tcp_ack(2), 21);
    assert_eq!(host.table.get_tcp_seq(2), 1000);
    let other: TcpKey = (app, 2, server, 80);
    assert_eq!(host.table.get_tcp_state(&other), Some(ConnectionState::SynSent));
    host.handle_event(event(1, 14, "RA", b""));
    assert_eq!(host.table.get_tcp_connection_key(1), None);
    assert_eq!(host.table.get_tcp_connection_key(2), Some(other));
}

#[test]
fn closing_undoes_creating() {
    let (app, server) = v6();
    let mut table = NatTable::new();
    let first: TcpKey = (app, 1, server, 80);
    let second: TcpKey = (app, 2, server, 80);
    let a = table.create_tcp_connection(first, 5);
    let b = table.create_tcp_connection(second, 6);
    table.close_tcp_connection(&second);
    assert_eq!(table.get_tcp_connection_key(a), Some(first));
    assert_eq!(table.get_tcp_connection_key(b), None);
    let c = table.create_tcp_connection(second, 6);
    assert!(a != b && b != c && a != c);
}

#[test]
fn a_login_goes_forward() {
    let no_key = SshConfig {
        user: String::new(),
        host: "h".to_string(),
        port: 22,
        identity: None,
        remote_binary: String::new(),
    };
    let mut step = ssh_proxy::host::ssh::start_login(&no_key);
    let events = [
        LoginEvent::AgentListed(Some(2)),
        LoginEvent::IdentityTried(IdentityOutcome::Error),
        LoginEvent::IdentityTried(IdentityOutcome::Rejected {
            partial_success: true,
            remaining_methods: vec![AuthMethod::KeyboardInteractive],
        }),
        LoginEvent::KeyboardReplied(KeyboardReply::Asks),
        LoginEvent::KeyboardReplied(KeyboardReply::Refused),
        LoginEvent::PasswordTried(Some(true)),
        LoginEvent::PasswordTried(Some(false)),
    ];
    let mut seen = vec![step];
    for event in events {
        step = continue_login(step, event);
        seen.push(step);
    }
    assert_eq!(
        seen,
        vec![
            LoginStep::Agent,
            LoginStep::Identity { index: 0, count: 2 },
            LoginStep::Identity { index: 1, count: 2 },
            LoginStep::Keyboard { index: 1, count: 2 },
            LoginStep::Keyboard { index: 1, count: 2 },
            LoginStep::Password,
            LoginStep::LoggedIn,
            LoginStep::LoggedIn,
        ]
    );
}

#[test]
fn an_unknown_server_key_needs_the_user() {
    let mut step = HostKeyStep::LookUp;
    for event in [
        HostKeyEvent::LookedUp { known: false },
        HostKeyEvent::Learned,
        HostKeyEvent::Answered { yes: true },
        HostKeyEvent::Learned,
    ] {
        assert!(step != HostKeyStep::Accept);
        step = check_server_key(step, event);
    }
    assert_eq!(step, HostKeyStep::Accept);
}

#[test]
fn an_address_is_taken_apart_again() {
    let config = SshConfig {
        user: String::new(),
        host: "server".to_string(),
        port: 65535,
        identity: None,
        remote_binary: String::new(),
    };
    let (host, port) = ssh_proxy::cli::parse_remote(&config.address()).unwrap();
    assert_eq!((host.as_str(), port), ("server", 65535));
}
