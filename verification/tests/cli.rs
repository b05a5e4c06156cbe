use ssh_proxy::addr::{IpAddr, Ipv4Addr, Ipv6Addr};
use ssh_proxy::cli::{default_user, parse_cidr, parse_remote, Cli, CliError, Command, HostArgs};
use ssh_proxy::text::{chars_of, push_decimal, read_ip, read_number, split_at};

#[test]
fn test_parse_remote() {
    let (host, port) = parse_remote("example.com").unwrap();
    assert_eq!(host, "example.com");
    assert_eq!(port, 22);

    let (host, port) = parse_remote("192.168.1.1:2222").unwrap();
    assert_eq!(host, "192.168.1.1");
    assert_eq!(port, 2222);
}

#[test]
fn test_parse_cidr_ipv4() {
    let (ip, prefix) = parse_cidr("192.168.1.0/24").unwrap();
    assert_eq!(ip, IpAddr::V4(Ipv4Addr::new(192, 168, 1, 0)));
    assert_eq!(prefix, 24);

    let (ip, prefix) = parse_cidr("10.0.0.0/8").unwrap();
    assert_eq!(ip, IpAddr::V4(Ipv4Addr::new(10, 0, 0, 0)));
    assert_eq!(prefix, 8);
}

#[test]
fn test_parse_cidr_ipv6() {
    let (ip, prefix) = parse_cidr("fd00::/64").unwrap();
    assert_eq!(ip, IpAddr::V6(Ipv6Addr::new(0xfd00, 0, 0, 0, 0, 0, 0, 0)));
    assert_eq!(prefix, 64);

    let (ip, prefix) = parse_cidr("2001:db8::/32").unwrap();
    assert_eq!(ip, IpAddr::V6(Ipv6Addr::new(0x2001, 0xdb8, 0, 0, 0, 0, 0, 0)));
    assert_eq!(prefix, 32);
}

#[test]
fn test_parse_cidr_invalid_prefix() {
    assert!(parse_cidr("192.168.1.0/33").is_err());
    assert!(parse_cidr("fd00::/129").is_err());
}

#[test]
fn remote_edge_cases() {
    assert_eq!(parse_remote(""), Ok((String::new(), 22)));
    assert_eq!(parse_remote(":7"), Ok((String::new(), 7)));
    assert_eq!(parse_remote("h:+22"), Ok(("h".to_string(), 22)));
    assert_eq!(parse_remote("h:00065535"), Ok(("h".to_string(), 65535)));
    assert_eq!(parse_remote("h:65536"), Err(CliError::Port));
    assert_eq!(parse_remote("h:"), Err(CliError::Port));
    assert_eq!(parse_remote("h:+"), Err(CliError::Port));
    assert_eq!(parse_remote("h:-1"), Err(CliError::Port));
    assert_eq!(parse_remote("h:99999999999999999999999"), Err(CliError::Port));
    assert_eq!(parse_remote("fd00::1"), Err(CliError::Port));
    assert_eq!(parse_remote("b\u{fc}ro:23"), Ok(("b\u{fc}ro".to_string(), 23)));
}

#[test]
fn cidr_errors() {
    assert_eq!(parse_cidr("10.0.0.0"), Err(CliError::CidrFormat));
    assert_eq!(parse_cidr("10.0.0.0/8/9"), Err(CliError::CidrFormat));
    assert_eq!(parse_cidr(""), Err(CliError::CidrFormat));
    assert_eq!(parse_cidr("ten/8"), Err(CliError::CidrAddress));
    assert_eq!(parse_cidr("ten/eight"), Err(CliError::CidrAddress));
    assert_eq!(parse_cidr("10.0.0.0/"), Err(CliError::CidrPrefix));
    assert_eq!(parse_cidr("10.0.0.0/256"), Err(CliError::CidrPrefix));
    assert_eq!(
        parse_cidr("192.168.1.0/33"),
        Err(CliError::PrefixTooLong { prefix: 33, max: 32 })
    );
    assert_eq!(
        parse_cidr("fd00::/129"),
        Err(CliError::PrefixTooLong { prefix: 129, max: 128 })
    );
    assert!(parse_cidr("fd00::/128").is_ok());
    assert!(parse_cidr("0.0.0.0/0").is_ok());
}

fn read(text: &str) -> Option<IpAddr> {
    read_ip(&chars_of(text))
}

#[test]
fn ipv4_texts() {
    assert_eq!(read("0.0.0.0"), Some(IpAddr::V4(Ipv4Addr { bits: 0x0 })));
    assert_eq!(read("255.255.255.255"), Some(IpAddr::V4(Ipv4Addr { bits: 0xffffffff })));
}

#[test]
fn ipv6_texts() {
    let texts = [
        ("::", 0x0000_0000_0000_0000_0000_0000_0000_0000),
        ("::1", 0x0000_0000_0000_0000_0000_0000_0000_0001),
        ("1::", 0x0001_0000_0000_0000_0000_0000_0000_0000),
        ("::1.2.3.4", 0x0000_0000_0000_0000_0000_0000_0102_0304),
        ("1::1.2.3.4", 0x0001_0000_0000_0000_0000_0000_0102_0304),
        ("1:2:3:4:5:6:7:8", 0x0001_0002_0003_0004_0005_0006_0007_0008),
        ("1:2:3:4:5:6:7::", 0x0001_0002_0003_0004_0005_0006_0007_0000),
        ("::2:3:4:5:6:7:8", 0x0000_0002_0003_0004_0005_0006_0007_0008),
        ("1::3:4:5:6:7:8", 0x0001_0000_0003_0004_0005_0006_0007_0008),
        ("1:2:3:4:5:6:1.2.3.4", 0x0001_0002_0003_0004_0005_0006_0102_0304),
        ("1:2:3:4:5::1.2.3.4", 0x0001_0002_0003_0004_0005_0000_0102_0304),
        ("fd00::", 0xfd00_0000_0000_0000_0000_0000_0000_0000),
        ("FD00::AbCd", 0xfd00_0000_0000_0000_0000_0000_0000_abcd),
        ("2001:db8::8a2e:370:7334", 0x2001_0db8_0000_0000_0000_8a2e_0370_7334),
        ("::ffff:10.0.0.1", 0x0000_0000_0000_0000_0000_ffff_0a00_0001),
        ("::0000", 0x0000_0000_0000_0000_0000_0000_0000_0000),
    ];
    for (text, bits) in texts {
        assert_eq!(read(text), Some(IpAddr::V6(Ipv6Addr { bits })), "{}", text);
    }
}

#[test]
fn texts_that_are_no_addresses() {
    let texts = [
        "",
        ".",
        ":",
        ":::",
        "::::",
        "256.0.0.0",
        "1.2.3",
        "1.2.3.4.5",
        "01.2.3.4",
        "0.00.0.0",
        "1.2.3.4 ",
        " 1.2.3.4",
        "1..2.3",
        "1.2.3.",
        "+1.2.3.4",
        "1000.2.3.4",
        "a.b.c.d",
        "1",
        "1.2.3.4::",
        "1:2:3:4:5:6:7",
        "1:2:3:4:5:6:7:8:9",
        "1:2:3:4::5:6:7:8",
        "1:2:3:4:5:6:7:8::",
        "1:2:3:4:5:6:7:1.2.3.4",
        "::1.2.3.4:5",
        "::1.2.3.456",
        "::01.2.3.4",
        "1:2:3:4:5:6::1.2.3.4",
        "12345::",
        "g::",
        "1::2::3",
        "1:::2",
        ":1::2",
        "1::2:",
        "1:2",
        "fe80::1%eth0",
        "[::1]",
        "1.2.3.4:80",
        "::00000",
        "1 ::",
        "::-1",
        "::+1",
    ];
    for text in texts {
        assert_eq!(read(text), None, "{}", text);
    }
}

#[test]
fn host_bits_are_kept() {
    let v4 = IpAddr::V4(Ipv4Addr::new(10, 255, 0, 1));
    for prefix in 0..=32u8 {
        assert_eq!(parse_cidr(&format!("10.255.0.1/{}", prefix)), Ok((v4, prefix)));
    }
    let v6 = IpAddr::V6(Ipv6Addr::new(0x2001, 0xdb8, 0, 0, 1, 0, 0, 0xabc));
    for prefix in 0..=128u8 {
        assert_eq!(parse_cidr(&format!("2001:db8::1:0:0:abc/{}", prefix)), Ok((v6, prefix)));
    }
    let mapped = IpAddr::V6(Ipv6Addr { bits: 0xffff_0a00_0001 });
    assert_eq!(parse_cidr("::ffff:10.0.0.1/96"), Ok((mapped, 96)));
    assert_eq!(parse_cidr("::/0"), Ok((IpAddr::V6(Ipv6Addr { bits: 0 }), 0)));
}

#[test]
fn numbers_are_read_and_written() {
    assert_eq!(read_number(&chars_of("0"), 0), Some(0));
    assert_eq!(read_number(&chars_of("1"), 0), None);
    assert_eq!(read_number(&chars_of("4294967295"), u32::MAX), Some(u32::MAX));
    assert_eq!(read_number(&chars_of("4294967296"), u32::MAX), None);
    assert_eq!(read_number(&chars_of("1a"), 100), None);
    assert_eq!(read_number(&chars_of("a1"), 100), None);
    for n in [0u64, 7, 10, 65535, u64::MAX] {
        let mut out = String::from("n=");
        push_decimal(&mut out, n);
        assert_eq!(out, format!("n={}", n));
    }
}

#[test]
fn texts_are_split() {
    let parts = split_at(&chars_of("a//b"), '/');
    assert_eq!(parts, vec![vec!['a'], vec![], vec!['b']]);
    assert_eq!(split_at(&[], '/'), vec![Vec::<char>::new()]);
}

#[test]
fn user_defaults_to_root() {
    assert_eq!(default_user(Some("alice".to_string())), "alice");
    assert_eq!(default_user(None), "root");
}

#[test]
fn only_host_mode_is_verbose() {
    assert!(!Cli { command: Command::Remote }.is_verbose());
    let args = |verbose| HostArgs {
        remote: String::new(),
        user: String::new(),
        subnets: vec![],
        tun_ip: String::new(),
        tun_name: String::new(),
        identity: None,
        remote_binary: String::new(),
        dns: None,
        dns_domains: vec![],
        verbose,
    };
    assert!(Cli { command: Command::Host(args(true)) }.is_verbose());
    assert!(!Cli { command: Command::Host(args(false)) }.is_verbose());
}
