use ssh_proxy::addr::{IpAddr, Ipv4Addr, Ipv6Addr, SocketAddr};
use ssh_proxy::cli::{CliError, HostArgs};
use ssh_proxy::host::dns::{register_dns, unregister_dns, DnsState};
use ssh_proxy::host::forward::HostAction;
use ssh_proxy::host::routing::{
    get_destination_and_interface_attributes, remove_route, RemoveStep, RouteAddress,
    RouteAttribute, RouteMessage,
};
use ssh_proxy::host::session::{check_ready, HostEvent, HostProxy, ReadyError};
use ssh_proxy::host::setup::{after_step, on_failure, plan, Course, OnFailure, SetupStep};
use ssh_proxy::host::tun::prefix_to_netmask;
use ssh_proxy::packet::build_udp_packet;
use ssh_proxy::protocol::{HostMessage, RemoteMessage};

fn ip(a: u8, b: u8, c: u8, d: u8) -> IpAddr {
    IpAddr::V4(Ipv4Addr::new(a, b, c, d))
}

#[test]
fn test_prefix_to_netmask() {
    assert_eq!(prefix_to_netmask(0), Ipv4Addr::new(0, 0, 0, 0));
    assert_eq!(prefix_to_netmask(8), Ipv4Addr::new(255, 0, 0, 0));
    assert_eq!(prefix_to_netmask(16), Ipv4Addr::new(255, 255, 0, 0));
    assert_eq!(prefix_to_netmask(24), Ipv4Addr::new(255, 255, 255, 0));
    assert_eq!(prefix_to_netmask(32), Ipv4Addr::new(255, 255, 255, 255));
}

#[test]
fn odd_netmasks() {
    assert_eq!(prefix_to_netmask(1), Ipv4Addr::new(128, 0, 0, 0));
    assert_eq!(prefix_to_netmask(31), Ipv4Addr::new(255, 255, 255, 254));
    assert_eq!(prefix_to_netmask(255), Ipv4Addr::new(255, 255, 255, 255));
}

#[test]
fn the_first_message_must_be_ready() {
    assert!(check_ready(Some(RemoteMessage::Ready)).is_ok());
    assert!(matches!(check_ready(None), Err(ReadyError::Disconnected)));
    assert!(matches!(
        check_ready(Some(RemoteMessage::TcpClosed { id: 4 })),
        Err(ReadyError::Unexpected(RemoteMessage::TcpClosed { id: 4 }))
    ));
}

#[test]
fn traffic_goes_on_and_failures_stop() {
    let mut host = HostProxy::new(None);
    let packet = build_udp_packet(ip(10, 0, 0, 1), ip(10, 0, 0, 2), 1, 2, b"x");
    assert_eq!(host.handle_event(HostEvent::TunPacket(packet)).len(), 1);
    assert!(host.handle_event(HostEvent::TunPacket(vec![0])).is_empty());
    assert!(host.handle_event(HostEvent::Message(RemoteMessage::Ready)).is_empty());
    let sender = SocketAddr { ip: ip(127, 0, 0, 1), port: 9 };
    assert!(host.handle_event(HostEvent::DnsQuery { data: vec![1], sender }).is_empty());
    assert!(host.running);
    for event in [
        HostEvent::TunReadFailed,
        HostEvent::TunWriteFailed,
        HostEvent::RemoteDisconnected,
        HostEvent::RemoteReadFailed,
        HostEvent::RemoteWriteFailed,
        HostEvent::Interrupt,
    ] {
        let mut host = HostProxy::new(None);
        assert!(matches!(
            &host.handle_event(event)[..],
            [HostAction::ToRemote(HostMessage::Shutdown)]
        ));
        assert!(!host.running);
    }
}

#[test]
fn dns_queries_are_forwarded_if_wanted() {
    let mut host = HostProxy::new(Some(ip(10, 10, 0, 53)));
    let sender = SocketAddr { ip: ip(127, 0, 0, 1), port: 9 };
    for expected in 0..3u32 {
        let actions = host.handle_event(HostEvent::DnsQuery { data: vec![1, 2], sender });
        assert!(matches!(
            &actions[..],
            [HostAction::ToRemote(HostMessage::DnsQuery { id, server, data })]
                if *id == expected && *server == ip(10, 10, 0, 53) && data[..] == [1, 2]
        ));
    }
    let answer = RemoteMessage::DnsResponse { id: 1, data: vec![3] };
    assert!(matches!(
        &host.handle_event(HostEvent::Message(answer))[..],
        [HostAction::DnsReply { client, .. }] if *client == sender
    ));
}

#[test]
fn dns_state_forgets_failed_queries() {
    let mut dns = DnsState::new(ip(1, 1, 1, 1));
    let sender = SocketAddr { ip: ip(127, 0, 0, 1), port: 9 };
    dns.handle_query(b"a", sender);
    dns.handle_query(b"b", sender);
    dns.query_failed(0);
    assert_eq!(dns.handle_response(0), None);
    assert_eq!(dns.handle_response(1), Some(sender));
    assert_eq!(dns.handle_response(1), None);
}

#[test]
fn dns_commands() {
    let (server, domains) = register_dns("tun0", 5300, &vec![]);
    assert_eq!(server, ["dns", "tun0", "127.0.0.1:5300"]);
    assert_eq!(domains, ["domain", "tun0", "~."]);
    let wanted = vec!["internal.example.com".to_string(), "corp".to_string()];
    let (_, domains) = register_dns("tun7", 53, &wanted);
    assert_eq!(domains, ["domain", "tun7", "~internal.example.com", "~corp"]);
    assert_eq!(unregister_dns("tun7"), ["revert", "tun7"]);
}

fn args() -> HostArgs {
    HostArgs {
        remote: "server.example.com:2200".to_string(),
        user: "alice".to_string(),
        subnets: vec!["192.168.1.0/24".to_string(), "fd00::/64".to_string()],
        tun_ip: "10.255.0.1/24".to_string(),
        tun_name: "tun0".to_string(),
        identity: None,
        remote_binary: "ssh-proxy".to_string(),
        dns: Some(ip(10, 10, 0, 53)),
        dns_domains: vec!["internal".to_string()],
        verbose: false,
    }
}

#[test]
fn a_plan_holds_what_the_arguments_say() {
    let p = plan(args()).ok().unwrap();
    assert_eq!((p.ssh.user.as_str(), p.ssh.host.as_str()), ("alice", "server.example.com"));
    assert_eq!(p.ssh.port, 2200);
    assert_eq!(p.ssh.remote_binary, "ssh-proxy");
    assert!(p.ssh.identity.is_none());
    assert_eq!(p.tun_name, "tun0");
    assert_eq!(p.tun_ip, (ip(10, 255, 0, 1), 24));
    let v6 = IpAddr::V6(Ipv6Addr::new(0xfd00, 0, 0, 0, 0, 0, 0, 0));
    assert_eq!(p.subnets, vec![(ip(192, 168, 1, 0), 24), (v6, 64)]);
    assert_eq!(p.dns, Some(ip(10, 10, 0, 53)));
    assert_eq!(p.dns_domains, ["internal"]);
    assert_eq!(
        p.steps(),
        vec![
            SetupStep::Connect,
            SetupStep::CreateTun,
            SetupStep::AddRoute { subnet: ip(192, 168, 1, 0), prefix: 24 },
            SetupStep::AddRoute { subnet: v6, prefix: 64 },
            SetupStep::RegisterDns,
            SetupStep::Loop,
            SetupStep::UnregisterDns,
            SetupStep::RemoveRoute { subnet: ip(192, 168, 1, 0), prefix: 24 },
            SetupStep::RemoveRoute { subnet: v6, prefix: 64 },
        ]
    );
    let bare = HostArgs { dns: None, subnets: vec![], ..args() };
    assert_eq!(
        plan(bare).ok().unwrap().steps(),
        vec![SetupStep::Connect, SetupStep::CreateTun, SetupStep::Loop]
    );
}

#[test]
fn the_first_faulty_argument_decides() {
    let fault = |args| plan(args).err().unwrap();
    assert_eq!(fault(HostArgs { remote: "h:x".to_string(), ..args() }), CliError::Port);
    assert_eq!(fault(HostArgs { tun_ip: "10.0.0.1".to_string(), ..args() }), CliError::CidrFormat);
    let subnets = ["1.2.3.4/8", "no/8", "1.2.3.4/99"].map(String::from).to_vec();
    assert_eq!(fault(HostArgs { subnets, ..args() }), CliError::CidrAddress);
}

#[test]
fn what_failures_mean() {
    let route = (ip(1, 2, 3, 4), 8);
    for step in [
        SetupStep::Connect,
        SetupStep::CreateTun,
        SetupStep::AddRoute { subnet: route.0, prefix: route.1 },
        SetupStep::RegisterDns,
    ] {
        assert_eq!(on_failure(step), OnFailure::Stop);
    }
    assert_eq!(on_failure(SetupStep::Loop), OnFailure::StopAfterCleanup);
    assert_eq!(on_failure(SetupStep::UnregisterDns), OnFailure::Warn);
    let step = SetupStep::RemoveRoute { subnet: route.0, prefix: route.1 };
    assert_eq!(on_failure(step), OnFailure::Warn);
}

fn route(prefix: u8, attributes: Vec<RouteAttribute>) -> RouteMessage {
    RouteMessage { destination_prefix_length: prefix, attributes }
}

#[test]
fn the_last_attributes_of_a_route_count() {
    let a = RouteAddress::Inet(Ipv4Addr::new(1, 2, 3, 4));
    let b = RouteAddress::Inet(Ipv4Addr::new(5, 6, 7, 8));
    let msg = route(
        8,
        vec![
            RouteAttribute::Iif(1),
            RouteAttribute::Destination(a),
            RouteAttribute::Other,
            RouteAttribute::Iif(2),
            RouteAttribute::Destination(b),
        ],
    );
    assert_eq!(get_destination_and_interface_attributes(&msg), Some((b, 2)));
    let half = route(8, vec![RouteAttribute::Destination(a)]);
    assert_eq!(get_destination_and_interface_attributes(&half), None);
    let half = route(8, vec![RouteAttribute::Iif(3)]);
    assert_eq!(get_destination_and_interface_attributes(&half), None);
}

#[test]
fn only_our_route_is_removed() {
    let subnet = ip(192, 168, 1, 0);
    let dest = RouteAttribute::Destination(RouteAddress::Inet(Ipv4Addr::new(192, 168, 1, 0)));
    let ours = || route(24, vec![dest, RouteAttribute::Iif(5)]);
    assert_eq!(remove_route(Some(ours()), subnet, 24, 5), RemoveStep::Delete);
    assert_eq!(remove_route(Some(ours()), subnet, 25, 5), RemoveStep::Next);
    assert_eq!(remove_route(Some(ours()), subnet, 24, 6), RemoveStep::Next);
    assert_eq!(remove_route(Some(ours()), ip(192, 168, 2, 0), 24, 5), RemoveStep::Next);
    assert_eq!(remove_route(Some(route(24, vec![dest])), subnet, 24, 5), RemoveStep::Next);
    let other = RouteAttribute::Destination(RouteAddress::Other);
    let msg = route(24, vec![other, RouteAttribute::Iif(5)]);
    assert_eq!(remove_route(Some(msg), subnet, 24, 5), RemoveStep::Next);
    assert_eq!(remove_route(None, subnet, 24, 5), RemoveStep::NotFound);
    let v6 = Ipv6Addr::new(0xfd00, 0, 0, 0, 0, 0, 0, 0);
    let dest = RouteAttribute::Destination(RouteAddress::Inet6(v6));
    let msg = route(64, vec![dest, RouteAttribute::Iif(5)]);
    assert_eq!(remove_route(Some(msg), IpAddr::V6(v6), 64, 5), RemoveStep::Delete);
}

/// The steps that are taken and the result, where the steps at these places fail with
/// their place.
fn run_steps(failing: &[usize]) -> (usize, Result<(), usize>) {
    let steps = plan(args()).ok().unwrap().steps();
    let mut result = Ok(());
    for (i, step) in steps.iter().enumerate() {
        let outcome = if failing.contains(&i) { Err(i) } else { Ok(()) };
        match after_step(*step, outcome, result) {
            Course::GoOn(so_far) => result = so_far,
            Course::End(end) => return (i + 1, end),
        }
    }
    (steps.len(), result)
}

#[test]
fn what_is_done_when_steps_fail() {
    // Connect, create, two routes, DNS, loop, DNS, two routes
    assert_eq!(run_steps(&[]), (9, Ok(())));
    for i in 0..5 {
        assert_eq!(run_steps(&[i, 5, 7]), (i + 1, Err(i)));
    }
    assert_eq!(run_steps(&[5]), (9, Err(5)));
    assert_eq!(run_steps(&[5, 6, 7, 8]), (9, Err(5)));
    assert_eq!(run_steps(&[6, 7, 8]), (9, Ok(())));
}

#[test]
fn dns_answers_in_any_order() {
    let mut dns = DnsState::new(ip(1, 1, 1, 1));
    let client = |port| SocketAddr { ip: ip(127, 0, 0, 1), port };
    for port in 0..5u16 {
        dns.handle_query(b"q", client(port));
    }
    assert_eq!(dns.handle_response(3), Some(client(3)));
    dns.handle_query(b"q", client(5));
    assert_eq!(dns.handle_response(0), Some(client(0)));
    assert_eq!(dns.handle_response(3), None);
    assert_eq!(dns.handle_response(1), Some(client(1)));
    // Never given out
    assert_eq!(dns.handle_response(6), None);
    assert_eq!(dns.handle_response(5), Some(client(5)));
}
