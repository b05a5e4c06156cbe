use ssh_proxy::addr::{IpAddr, Ipv4Addr, Ipv6Addr};
use ssh_proxy::host::nat_table::{
    mapping_is_fresh, ConnectionState, NatTable, TcpKey, UDP_TIMEOUT_NANOS,
};

fn ip(a: u8, b: u8, c: u8, d: u8) -> IpAddr {
    IpAddr::V4(Ipv4Addr::new(a, b, c, d))
}

#[test]
fn test_tcp_connection_lifecycle() {
    let mut nat = NatTable::new();
    let key = (ip(10, 0, 0, 1), 12345, ip(192, 168, 1, 1), 80);

    // Create connection (client ISN = 5000)
    let id = nat.create_tcp_connection(key, 5000);
    assert_eq!(nat.get_tcp_connection_id(&key), Some(id));
    assert_eq!(nat.get_tcp_connection_key(id), Some(key));
    assert_eq!(nat.get_tcp_ack(id), 5001); // client ISN + 1

    // Update state
    nat.set_tcp_state(&key, ConnectionState::Established);

    // Close connection
    nat.close_tcp_connection(&key);
    assert_eq!(nat.get_tcp_connection_id(&key), None);
    assert_eq!(nat.get_tcp_connection_key(id), None);
}

#[test]
fn test_udp_tracking() {
    let mut nat = NatTable::new();

    // Track outgoing UDP
    nat.track_udp(ip(10, 0, 0, 1), 54321, ip(8, 8, 8, 8), 53);

    // Look up return path
    let src_ip = nat.get_udp_src_ip(54321, ip(8, 8, 8, 8), 53);
    assert_eq!(src_ip, Some(ip(10, 0, 0, 1)));
}

#[test]
fn numbers_of_a_connection() {
    let mut nat = NatTable::default();
    let key: TcpKey = (ip(10, 0, 0, 1), 1, ip(10, 0, 0, 2), 2);
    let id = nat.create_tcp_connection(key, u32::MAX);
    assert_eq!(id, 1);
    assert_eq!(nat.get_tcp_ack(id), 0);
    assert_eq!(nat.get_tcp_seq(id), 1000);
    assert_eq!(nat.get_tcp_state(&key), Some(ConnectionState::SynSent));
    nat.advance_tcp_seq_syn(id);
    assert_eq!(nat.get_tcp_seq(id), 1001);
    nat.advance_tcp_seq(id, u32::MAX);
    assert_eq!(nat.get_tcp_seq(id), 1000);
    nat.update_tcp_ack(id, 77);
    assert_eq!(nat.get_tcp_ack(id), 77);
    nat.set_tcp_state(&key, ConnectionState::LastAck);
    assert_eq!(nat.get_tcp_state(&key), Some(ConnectionState::LastAck));
}

#[test]
fn unknown_connections_have_no_numbers() {
    let mut nat = NatTable::new();
    let key: TcpKey = (ip(10, 0, 0, 1), 1, ip(10, 0, 0, 2), 2);
    nat.advance_tcp_seq(9, 5);
    nat.update_tcp_ack(9, 5);
    nat.set_tcp_state(&key, ConnectionState::Closed);
    nat.close_tcp_connection(&key);
    assert_eq!(nat.get_tcp_seq(9), 0);
    assert_eq!(nat.get_tcp_ack(9), 0);
    assert_eq!(nat.get_tcp_state(&key), None);
}

#[test]
fn connections_do_not_disturb_each_other() {
    let mut nat = NatTable::new();
    let a: TcpKey = (ip(10, 0, 0, 1), 1, ip(10, 0, 0, 2), 2);
    // The same bits in the other family make another key
    let b: TcpKey = (
        IpAddr::V6(Ipv6Addr { bits: 0x0a00_0001 }),
        1,
        IpAddr::V6(Ipv6Addr { bits: 0x0a00_0002 }),
        2,
    );
    let ia = nat.create_tcp_connection(a, 10);
    let ib = nat.create_tcp_connection(b, 20);
    assert_ne!(ia, ib);
    nat.advance_tcp_seq(ia, 5);
    nat.close_tcp_connection(&b);
    assert_eq!(nat.get_tcp_seq(ia), 1005);
    assert_eq!(nat.get_tcp_ack(ia), 11);
    assert_eq!(nat.get_tcp_connection_key(ib), None);
    assert_eq!(nat.get_tcp_connection_key(ia), Some(a));
}

#[test]
fn stale_mappings_are_removed() {
    let mut nat = NatTable::new();
    let (a, b, dst) = (ip(10, 0, 0, 1), ip(10, 0, 0, 2), ip(8, 8, 8, 8));
    nat.track_udp_at(a, 1, dst, 53, 0, 0);
    nat.track_udp_at(b, 2, dst, 53, 10, UDP_TIMEOUT_NANOS - 1);
    assert_eq!(nat.get_udp_src_ip(1, dst, 53), Some(a));
    nat.cleanup_udp_mappings(UDP_TIMEOUT_NANOS);
    assert_eq!(nat.get_udp_src_ip(1, dst, 53), None);
    assert_eq!(nat.get_udp_src_ip(2, dst, 53), Some(b));
    // The last sender wins
    nat.track_udp_at(a, 2, dst, 53, 20, 20);
    assert_eq!(nat.get_udp_src_ip(2, dst, 53), Some(a));
    assert_eq!(nat.get_udp_src_ip(2, dst, 54), None);
}

#[test]
fn freshness() {
    assert!(mapping_is_fresh(0, 0));
    assert!(mapping_is_fresh(5, 5 + UDP_TIMEOUT_NANOS - 1));
    assert!(!mapping_is_fresh(5, 5 + UDP_TIMEOUT_NANOS));
    assert!(mapping_is_fresh(5, 0));
}

#[test]
fn ids_differ_whatever_happens_in_between() {
    let mut nat = NatTable::new();
    let key = |port| (ip(10, 0, 0, 1), port, ip(10, 0, 0, 2), 80);
    let mut ids = vec![];
    for port in 0..50u16 {
        ids.push(nat.create_tcp_connection(key(port % 7), 1));
        nat.set_tcp_state(&key(port % 3), ConnectionState::FinWait);
        nat.advance_tcp_seq(u32::from(port), 9);
        nat.close_tcp_connection(&key(port % 5));
        nat.track_udp_at(ip(10, 0, 0, 1), port, ip(8, 8, 8, 8), 53, 0, 0);
    }
    let mut distinct = ids.clone();
    distinct.dedup();
    assert_eq!(distinct, ids);
    assert_eq!((ids[0], ids[49]), (1, 50));
}
