use ssh_proxy::addr::{IpAddr, Ipv4Addr, Ipv6Addr};
use ssh_proxy::packet::{
    build_tcp_packet, build_udp_packet, check_lengths, parse_ip_packet, parse_transport,
    PacketError, ParsedPacket, TcpFlags, TcpPacketInfo, UdpPacketInfo,
};

#[test]
fn test_tcp_packet_roundtrip() {
    let src = IpAddr::V4(Ipv4Addr::new(10, 0, 0, 1));
    let dst = IpAddr::V4(Ipv4Addr::new(192, 168, 1, 1));
    let packet = build_tcp_packet(
        src,
        dst,
        12345,
        80,
        1000,
        0,
        TcpFlags { syn: true, ..Default::default() },
        65535,
        &[],
    );

    match parse_ip_packet(&packet).unwrap() {
        ParsedPacket::Tcp(info) => {
            assert_eq!(info.src_ip, src);
            assert_eq!(info.dst_ip, dst);
            assert_eq!(info.src_port, 12345);
            assert_eq!(info.dst_port, 80);
            assert!(info.flags.syn);
        }
        _ => panic!("Expected TCP packet"),
    }
}

#[test]
fn test_udp_packet_roundtrip() {
    let src = IpAddr::V4(Ipv4Addr::new(10, 0, 0, 1));
    let dst = IpAddr::V4(Ipv4Addr::new(8, 8, 8, 8));
    let payload = b"Hello, UDP!";
    let packet = build_udp_packet(src, dst, 54321, 53, payload);

    match parse_ip_packet(&packet).unwrap() {
        ParsedPacket::Udp(info) => {
            assert_eq!(info.src_ip, src);
            assert_eq!(info.dst_ip, dst);
            assert_eq!(info.src_port, 54321);
            assert_eq!(info.dst_port, 53);
            assert_eq!(info.payload, payload);
        }
        _ => panic!("Expected UDP packet"),
    }
}

#[test]
fn test_tcp_packet_roundtrip_ipv6() {
    let src = IpAddr::V6(Ipv6Addr::new(0xfd00, 0, 0, 0, 0, 0, 0, 1));
    let dst = IpAddr::V6(Ipv6Addr::new(0x2001, 0xdb8, 0, 0, 0, 0, 0, 1));
    let packet = build_tcp_packet(
        src,
        dst,
        12345,
        443,
        2000,
        0,
        TcpFlags { syn: true, ..Default::default() },
        65535,
        &[],
    );

    match parse_ip_packet(&packet).unwrap() {
        ParsedPacket::Tcp(info) => {
            assert_eq!(info.src_ip, src);
            assert_eq!(info.dst_ip, dst);
            assert_eq!(info.src_port, 12345);
            assert_eq!(info.dst_port, 443);
            assert!(info.flags.syn);
        }
        _ => panic!("Expected TCP packet"),
    }
}

#[test]
fn test_udp_packet_roundtrip_ipv6() {
    let src = IpAddr::V6(Ipv6Addr::new(0xfd00, 0, 0, 0, 0, 0, 0, 1));
    let dst = IpAddr::V6(Ipv6Addr::new(0x2001, 0x4860, 0x4860, 0, 0, 0, 0, 0x8888));
    let payload = b"Hello, IPv6 UDP!";
    let packet = build_udp_packet(src, dst, 54321, 53, payload);

    match parse_ip_packet(&packet).unwrap() {
        ParsedPacket::Udp(info) => {
            assert_eq!(info.src_ip, src);
            assert_eq!(info.dst_ip, dst);
            assert_eq!(info.src_port, 54321);
            assert_eq!(info.dst_port, 53);
            assert_eq!(info.payload, payload);
        }
        _ => panic!("Expected UDP packet"),
    }
}

fn v4() -> (IpAddr, IpAddr) {
    (IpAddr::V4(Ipv4Addr::new(10, 0, 0, 1)), IpAddr::V4(Ipv4Addr::new(192, 168, 1, 1)))
}

fn v6() -> (IpAddr, IpAddr) {
    (
        IpAddr::V6(Ipv6Addr::new(0xfd00, 0, 0, 0, 0, 0, 0, 1)),
        IpAddr::V6(Ipv6Addr::new(0x2001, 0xdb8, 0, 0, 0, 0, 0, 1)),
    )
}

#[test]
fn every_flag_and_field_of_a_segment_comes_back() {
    for (src, dst) in [v4(), v6()] {
        for bits in 0u8..32 {
            let flags = TcpFlags {
                syn: bits & 1 != 0,
                ack: bits & 2 != 0,
                fin: bits & 4 != 0,
                rst: bits & 8 != 0,
                psh: bits & 16 != 0,
            };
            let packet = build_tcp_packet(src, dst, 1, 65535, 0xdead_beef, 7, flags, 513, b"data");
            assert!(check_lengths(&packet));
            match parse_ip_packet(&packet).unwrap() {
                ParsedPacket::Tcp(tcp) => {
                    assert_eq!((tcp.src_ip, tcp.dst_ip), (src, dst));
                    assert_eq!((tcp.src_port, tcp.dst_port), (1, 65535));
                    assert_eq!(tcp.seq, 0xdead_beef);
                    assert_eq!(tcp.ack, if flags.ack { 7 } else { 0 });
                    assert_eq!(tcp.flags, flags);
                    assert_eq!(tcp.window, 513);
                    assert_eq!(tcp.payload, b"data");
                }
                _ => panic!("Expected TCP packet"),
            }
        }
    }
}

#[test]
fn ipv4_bytes_are_exact() {
    let (src, dst) = v4();
    let packet = build_udp_packet(src, dst, 0x1234, 53, b"ab");
    assert_eq!(packet[0], 0x45);
    assert_eq!(&packet[2..4], &[0, 30]);
    assert_eq!(packet[8], 64);
    assert_eq!(packet[9], 17);
    assert_eq!(&packet[12..16], &[10, 0, 0, 1]);
    assert_eq!(&packet[16..20], &[192, 168, 1, 1]);
    assert_eq!(&packet[20..26], &[0x12, 0x34, 0, 53, 0, 10]);
    assert_eq!(&packet[28..], b"ab");
    assert_eq!(packet.len(), 30);
}

#[test]
fn longest_payloads_are_carried() {
    let (src, dst) = v4();
    assert_eq!(
        build_tcp_packet(src, dst, 1, 2, 3, 4, TcpFlags::default(), 5, &vec![1; 65495]).len(),
        65535
    );
    assert_eq!(build_udp_packet(src, dst, 1, 2, &vec![1; 65507]).len(), 65535);
    let (src, dst) = v6();
    assert_eq!(
        build_tcp_packet(src, dst, 1, 2, 3, 4, TcpFlags::default(), 5, &vec![1; 65515]).len(),
        65575
    );
    assert_eq!(build_udp_packet(src, dst, 1, 2, &vec![1; 65527]).len(), 65575);
}

#[test]
fn buildable_means_one_family_and_a_payload_that_fits() {
    let tcp = |src_ip, dst_ip, len: usize| TcpPacketInfo {
        src_ip,
        dst_ip,
        src_port: 1,
        dst_port: 2,
        seq: 3,
        ack: 4,
        flags: TcpFlags::default(),
        window: 5,
        payload: vec![0; len],
    };
    let udp = |src_ip, dst_ip, len: usize| UdpPacketInfo {
        src_ip,
        dst_ip,
        src_port: 1,
        dst_port: 2,
        payload: vec![0; len],
    };
    let (a4, b4) = v4();
    let (a6, b6) = v6();
    assert!(tcp(a4, b4, 65495).is_buildable());
    assert!(!tcp(a4, b4, 65496).is_buildable());
    assert!(tcp(a6, b6, 65515).is_buildable());
    assert!(!tcp(a6, b6, 65516).is_buildable());
    assert!(!tcp(a4, b6, 0).is_buildable());
    assert!(udp(a4, b4, 65507).is_buildable());
    assert!(!udp(a4, b4, 65508).is_buildable());
    assert!(udp(a6, b6, 65527).is_buildable());
    assert!(!udp(a6, b6, 65528).is_buildable());
    assert!(!udp(a6, b4, 0).is_buildable());
    assert_eq!(tcp(a4, b4, 3).to_packet().len(), 43);
    assert_eq!(udp(a6, b6, 3).to_packet().len(), 51);
}

fn fault(data: &[u8]) -> PacketError {
    assert!(check_lengths(data));
    parse_ip_packet(data).unwrap_err()
}

#[test]
fn faulty_packets_are_refused() {
    assert!(matches!(fault(&[]), PacketError::Empty));
    assert!(matches!(fault(&[0x50, 0, 0]), PacketError::UnknownVersion(5)));
    assert!(matches!(fault(&[0x45, 0, 0]), PacketError::Ipv4TooShort));
    // A header length of less than five words
    let mut bad = vec![0u8; 20];
    bad[0] = 0x44;
    assert!(matches!(fault(&bad), PacketError::Ipv4Header(_)));
    // Options that are not there
    bad[0] = 0x46;
    assert!(matches!(fault(&bad), PacketError::Ipv4Header(_)));
    assert!(matches!(fault(&[0x60, 0, 0]), PacketError::Ipv6TooShort));
    // A hop-by-hop header that is cut off
    let mut bad = vec![0u8; 44];
    bad[0] = 0x60;
    bad[5] = 4;
    assert!(matches!(fault(&bad), PacketError::Ipv6Extensions(_)));
}

#[test]
fn faulty_transports_are_refused() {
    let (src, dst) = v4();
    let read = |protocol, data: &[u8]| parse_transport(protocol, src, dst, data);
    assert!(matches!(read(6, &[0; 19]), Err(PacketError::TcpTooShort)));
    assert!(matches!(read(6, &[0; 20]), Err(PacketError::TcpHeader(_))));
    let mut long = [0u8; 20];
    long[12] = 0x60;
    assert!(matches!(read(6, &long), Err(PacketError::TcpHeader(_))));
    assert!(matches!(read(17, &[0; 7]), Err(PacketError::UdpTooShort)));
    assert!(matches!(read(17, &[0; 8]), Ok(ParsedPacket::Udp(_))));
    assert!(matches!(read(1, &[]), Ok(ParsedPacket::Other { protocol: 1 })));
}

#[test]
fn lengths_that_disagree_are_noticed() {
    let (src, dst) = v4();
    let mut packet = build_udp_packet(src, dst, 1, 2, b"x");
    assert!(check_lengths(&packet));
    packet[2] = 0;
    packet[3] = 19;
    assert!(!check_lengths(&packet));
    packet[3] = 20;
    assert!(check_lengths(&packet));
    // Nothing is left for the transport
    assert!(matches!(fault(&packet), PacketError::UdpTooShort));
}

#[test]
fn bytes_behind_the_declared_end_do_not_count() {
    let (src, dst) = v4();
    let mut packet = build_udp_packet(src, dst, 1, 2, b"abc");
    packet.extend_from_slice(b"padding");
    match parse_ip_packet(&packet).unwrap() {
        ParsedPacket::Udp(udp) => assert_eq!(udp.payload, b"abc"),
        _ => panic!("Expected UDP packet"),
    }
    let (src, dst) = v6();
    let mut packet = build_udp_packet(src, dst, 1, 2, b"abc");
    packet.extend_from_slice(b"padding");
    match parse_ip_packet(&packet).unwrap() {
        ParsedPacket::Udp(udp) => assert_eq!(udp.payload, b"abc"),
        _ => panic!("Expected UDP packet"),
    }
    for (src, dst) in [v4(), v6()] {
        let mut packet = build_tcp_packet(src, dst, 1, 2, 3, 4, TcpFlags::default(), 5, b"abc");
        packet.extend_from_slice(b"padding");
        match parse_ip_packet(&packet).unwrap() {
            ParsedPacket::Tcp(tcp) => assert_eq!(tcp.payload, b"abc"),
            _ => panic!("Expected TCP packet"),
        }
    }
}

#[test]
fn extension_headers_are_walked() {
    let (src, dst) = v6();
    let plain = build_udp_packet(src, dst, 9, 10, b"xyz");
    // A hop-by-hop header of eight bytes in between
    let mut packet = plain[..40].to_vec();
    packet[6] = 0;
    packet[5] += 8;
    packet.extend_from_slice(&[17, 0, 1, 4, 0, 0, 0, 0]);
    packet.extend_from_slice(&plain[40..]);
    match parse_ip_packet(&packet).unwrap() {
        ParsedPacket::Udp(udp) => {
            assert_eq!((udp.src_ip, udp.dst_ip), (src, dst));
            assert_eq!((udp.src_port, udp.dst_port), (9, 10));
            assert_eq!(udp.payload, b"xyz");
        }
        _ => panic!("Expected UDP packet"),
    }
}

/// A UDP packet with these bytes between the IPv6 header and the datagram.
fn with_extensions(first: u8, extensions: &[u8]) -> Vec<u8> {
    let (src, dst) = v6();
    let plain = build_udp_packet(src, dst, 9, 10, b"xyz");
    let mut packet = plain[..40].to_vec();
    packet[6] = first;
    packet[5] += extensions.len() as u8;
    packet.extend_from_slice(extensions);
    packet.extend_from_slice(&plain[40..]);
    packet
}

#[test]
fn every_extension_header_is_walked() {
    // Hop-by-hop options, routing (16 bytes), fragment, authentication (16 bytes),
    // destination options
    let mut chain = vec![];
    chain.extend_from_slice(&[43, 0, 1, 4, 0, 0, 0, 0]);
    chain.extend_from_slice(&[44, 1, 0, 0, 0, 0, 0, 0, 0, 0, 0, 0, 0, 0, 0, 0]);
    chain.extend_from_slice(&[51, 9, 0, 0, 0, 0, 0, 1]);
    chain.extend_from_slice(&[60, 2, 0, 0, 0, 0, 0, 0, 0, 0, 0, 0, 0, 0, 0, 0]);
    chain.extend_from_slice(&[17, 0, 1, 4, 0, 0, 0, 0]);
    match parse_ip_packet(&with_extensions(0, &chain)).unwrap() {
        ParsedPacket::Udp(udp) => {
            assert_eq!((udp.src_port, udp.dst_port), (9, 10));
            assert_eq!(udp.payload, b"xyz");
        }
        _ => panic!("Expected UDP packet"),
    }
}

#[test]
fn faulty_extension_chains_are_refused() {
    let refused = |first, chain: &[u8]| {
        matches!(fault(&with_extensions(first, chain)), PacketError::Ipv6Extensions(_))
    };
    // Hop-by-hop options that do not stand in front
    assert!(refused(60, &[0, 0, 1, 4, 0, 0, 0, 0, 17, 0, 1, 4, 0, 0, 0, 0]));
    assert!(refused(0, &[0, 0, 1, 4, 0, 0, 0, 0, 17, 0, 1, 4, 0, 0, 0, 0]));
    // Longer than what is there
    assert!(refused(43, &[17, 9, 0, 0, 0, 0, 0, 0]));
    // An authentication header without a value
    assert!(refused(51, &[17, 0, 0, 0, 0, 0, 0, 0, 0, 0, 0, 0]));
}

#[test]
fn other_protocols_end_the_chain() {
    let packet = with_extensions(60, &[58, 0, 1, 4, 0, 0, 0, 0]);
    assert!(matches!(
        parse_ip_packet(&packet),
        Ok(ParsedPacket::Other { protocol: 58 })
    ));
}

#[test]
fn built_packets_have_no_options() {
    for len in [0usize, 1, 1000] {
        let payload = vec![7; len];
        let (a, b) = v4();
        let tcp = |a, b| build_tcp_packet(a, b, 1, 2, 3, 4, TcpFlags::default(), 5, &payload);
        assert_eq!(tcp(a, b).len(), len + 40);
        assert_eq!(build_udp_packet(a, b, 1, 2, &payload).len(), len + 28);
        let (a, b) = v6();
        assert_eq!(tcp(a, b).len(), len + 60);
        assert_eq!(build_udp_packet(a, b, 1, 2, &payload).len(), len + 48);
    }
}

#[test]
fn addresses_are_their_octets() {
    let a = Ipv4Addr::new(1, 2, 3, 4);
    assert_eq!(a.bits, 0x0102_0304);
    assert_eq!(a.octets(), [1, 2, 3, 4]);
    assert_eq!(Ipv4Addr::from_octets([1, 2, 3, 4]), a);
    let b = Ipv6Addr::new(1, 2, 3, 4, 5, 6, 7, 8);
    assert_eq!(b.bits, 0x0001_0002_0003_0004_0005_0006_0007_0008);
    assert_eq!(b.octets(), [0, 1, 0, 2, 0, 3, 0, 4, 0, 5, 0, 6, 0, 7, 0, 8]);
    assert_eq!(Ipv6Addr::from_octets(b.octets()), b);
}
