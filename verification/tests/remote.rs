use ssh_proxy::addr::{IpAddr, Ipv4Addr, Ipv6Addr, SocketAddr};
use ssh_proxy::protocol::{HostMessage, RemoteMessage};
use ssh_proxy::remote::proxy::{
    dns_replies, handle_tcp_connection, udp_answers, udp_bind_ip, udp_replies, RelayEvent,
    UdpOutcome,
};
use ssh_proxy::remote::{RemoteAction, RemoteEvent, RemoteProxy};

fn dst() -> IpAddr {
    IpAddr::V4(Ipv4Addr::new(192, 168, 1, 1))
}

#[test]
fn the_remote_is_ready_first() {
    let (proxy, msg) = RemoteProxy::new();
    assert!(proxy.is_running());
    assert!(matches!(msg, RemoteMessage::Ready));
}

#[test]
fn a_connection_from_start_to_end() {
    let (mut proxy, _) = RemoteProxy::new();
    let action = proxy.handle_host_message(HostMessage::TcpConnect {
        id: 7,
        dst_ip: dst(),
        dst_port: 80,
    });
    assert!(matches!(
        action,
        RemoteAction::Connect { id: 7, dst_ip, dst_port: 80 } if dst_ip == dst()
    ));
    // Not connected yet
    let early = HostMessage::TcpData { id: 7, data: vec![1] };
    assert!(matches!(proxy.handle_host_message(early), RemoteAction::Nothing));
    let (msg, slot, pushed_out) = proxy.connect_finished(7);
    assert!(matches!(msg, RemoteMessage::TcpConnected { id: 7 }));
    assert_eq!((slot, pushed_out), (0, None));
    let data = HostMessage::TcpData { id: 7, data: vec![1, 2] };
    assert!(matches!(
        proxy.handle_host_message(data),
        RemoteAction::Deliver { id: 7, slot: 0, data } if data == [1, 2]
    ));
    let close = HostMessage::TcpClose { id: 7 };
    assert!(matches!(proxy.handle_host_message(close), RemoteAction::HangUp { slot: 0 }));
    let close = HostMessage::TcpClose { id: 7 };
    assert!(matches!(proxy.handle_host_message(close), RemoteAction::Nothing));
    assert_eq!(proxy.connection_done(7), None);
}

#[test]
fn slots_are_their_own() {
    let (mut proxy, _) = RemoteProxy::new();
    assert_eq!(proxy.connect_finished(1).1, 0);
    assert_eq!(proxy.connect_finished(2).1, 1);
    let (_, slot, pushed_out) = proxy.connect_finished(1);
    assert_eq!((slot, pushed_out), (2, Some(0)));
    assert_eq!(proxy.delivery_failed(1), Some(2));
    assert_eq!(proxy.delivery_failed(1), None);
    assert_eq!(proxy.connection_done(2), Some(1));
}

#[test]
fn a_failed_connection_is_reported() {
    let (proxy, _) = RemoteProxy::new();
    assert!(matches!(
        proxy.connect_failed(3, "refused".to_string()),
        RemoteMessage::TcpError { id: 3, error } if error == "refused"
    ));
}

#[test]
fn datagrams_and_queries_are_sent() {
    let (mut proxy, _) = RemoteProxy::new();
    let msg = HostMessage::UdpDatagram {
        src_port: 1,
        dst_ip: dst(),
        dst_port: 2,
        data: vec![3],
    };
    assert!(matches!(
        proxy.handle_host_message(msg),
        RemoteAction::SendUdp { src_port: 1, dst_ip, dst_port: 2, data }
            if dst_ip == dst() && data == [3]
    ));
    let msg = HostMessage::DnsQuery { id: 9, server: dst(), data: vec![4] };
    assert!(matches!(
        proxy.handle_host_message(msg),
        RemoteAction::SendDns { id: 9, server, data } if server == dst() && data == [4]
    ));
}

#[test]
fn what_stops_the_remote() {
    for event in [
        RemoteEvent::Message(HostMessage::Shutdown),
        RemoteEvent::HostDisconnected,
        RemoteEvent::ReadFailed,
        RemoteEvent::WriteFailed,
    ] {
        let (mut proxy, _) = RemoteProxy::new();
        assert!(matches!(proxy.handle_event(event), RemoteAction::Nothing));
        assert!(!proxy.is_running());
    }
    let (mut proxy, _) = RemoteProxy::new();
    proxy.handle_event(RemoteEvent::Message(HostMessage::TcpClose { id: 1 }));
    assert!(proxy.is_running());
}

#[test]
fn the_relay_passes_data_on() {
    let step = handle_tcp_connection(5, RelayEvent::FromHost(vec![1, 2]));
    assert_eq!(step.write, Some(vec![1, 2]));
    assert!(step.report.is_empty() && !step.done);
    let step = handle_tcp_connection(5, RelayEvent::FromDestination(vec![3]));
    assert_eq!(step.write, None);
    assert!(!step.done);
    assert!(matches!(
        &step.report[..],
        [RemoteMessage::TcpData { id: 5, data }] if data[..] == [3]
    ));
}

#[test]
fn the_relay_reports_its_end_once() {
    for event in [
        RelayEvent::NotRunning,
        RelayEvent::HostHungUp,
        RelayEvent::ReportFailed,
        RelayEvent::FromDestination(vec![]),
    ] {
        let step = handle_tcp_connection(5, event);
        assert!(step.done && step.write.is_none());
        assert!(matches!(&step.report[..], [RemoteMessage::TcpClosed { id: 5 }]));
    }
    for event in [
        RelayEvent::WriteFailed("broken".to_string()),
        RelayEvent::ReadFailed("broken".to_string()),
    ] {
        let step = handle_tcp_connection(5, event);
        assert!(step.done && step.write.is_none());
        assert!(matches!(
            &step.report[..],
            [RemoteMessage::TcpError { id: 5, error }, RemoteMessage::TcpClosed { id: 5 }]
                if error == "broken"
        ));
    }
}

#[test]
fn udp_answers_become_messages() {
    let from = SocketAddr { ip: dst(), port: 53 };
    let answers = udp_answers(UdpOutcome::Received { from, data: vec![1, 2] }).unwrap();
    assert_eq!(answers, vec![(dst(), 53, vec![1, 2])]);
    assert!(matches!(
        &udp_replies(4000, answers.clone())[..],
        [RemoteMessage::UdpResponse { dst_port: 4000, src_ip, src_port: 53, data }]
            if *src_ip == dst() && data[..] == [1, 2]
    ));
    assert!(matches!(
        &dns_replies(6, answers)[..],
        [RemoteMessage::DnsResponse { id: 6, data }] if data[..] == [1, 2]
    ));
    assert_eq!(udp_answers(UdpOutcome::TimedOut), Ok(vec![]));
    assert_eq!(udp_answers(UdpOutcome::Failed("no".to_string())), Err("no".to_string()));
    assert!(udp_replies(1, vec![]).is_empty());
}

#[test]
fn sockets_are_bound_to_the_family() {
    assert_eq!(udp_bind_ip(dst()), IpAddr::V4(Ipv4Addr::new(0, 0, 0, 0)));
    let v6 = IpAddr::V6(Ipv6Addr { bits: 77 });
    assert_eq!(udp_bind_ip(v6), IpAddr::V6(Ipv6Addr { bits: 0 }));
}

#[test]
fn the_host_is_told_data_then_an_error_then_the_close() {
    let events = vec![
        RelayEvent::FromHost(vec![1]),
        RelayEvent::FromDestination(vec![2]),
        RelayEvent::FromDestination(vec![3, 4]),
        RelayEvent::ReadFailed("reset".to_string()),
        RelayEvent::FromDestination(vec![5]),
    ];
    let mut told = vec![];
    for event in events {
        let step = handle_tcp_connection(8, event);
        told.extend(step.report);
        if step.done {
            break;
        }
    }
    assert!(matches!(
        &told[..],
        [
            RemoteMessage::TcpData { id: 8, data: a },
            RemoteMessage::TcpData { id: 8, data: b },
            RemoteMessage::TcpError { id: 8, error },
            RemoteMessage::TcpClosed { id: 8 },
        ] if a[..] == [2] && b[..] == [3, 4] && error == "reset"
    ));
}
