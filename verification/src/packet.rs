//! IP packets: what they say and how they are built.

use vstd::prelude::*;

use crate::addr::{IpAddr, Ipv4Addr, Ipv6Addr};
use crate::bytes;
use crate::wire;

verus! {

/// The time to live of a packet that this end builds.
pub const TTL: u8 = 64;

/// Parsed packet information
#[derive(Debug, Clone)]
pub enum ParsedPacket {
    Tcp(TcpPacketInfo),
    Udp(UdpPacketInfo),
    Other { protocol: u8 },
}

/// A TCP segment and the addresses it travels between.
#[derive(Debug, Clone)]
pub struct TcpPacketInfo {
    pub src_ip: IpAddr,
    pub dst_ip: IpAddr,
    pub src_port: u16,
    pub dst_port: u16,
    pub seq: u32,
    pub ack: u32,
    pub flags: TcpFlags,
    pub window: u16,
    pub payload: Vec<u8>,
}

/// The control flags of a TCP segment that the proxy reads and writes.
#[derive(Debug, Clone, Copy, PartialEq, Eq, Structural)]
pub struct TcpFlags {
    pub syn: bool,
    pub ack: bool,
    pub fin: bool,
    pub rst: bool,
    pub psh: bool,
}

/// A UDP datagram and the addresses it travels between.
#[derive(Debug, Clone)]
pub struct UdpPacketInfo {
    pub src_ip: IpAddr,
    pub dst_ip: IpAddr,
    pub src_port: u16,
    pub dst_port: u16,
    pub payload: Vec<u8>,
}

/// What a `TcpPacketInfo` says.
#[verifier::ext_equal]
pub struct TcpPacketView {
    pub src_ip: IpAddr,
    pub dst_ip: IpAddr,
    pub src_port: u16,
    pub dst_port: u16,
    pub seq: u32,
    pub ack: u32,
    pub flags: TcpFlags,
    pub window: u16,
    pub payload: Seq<u8>,
}

/// What a `UdpPacketInfo` says.
#[verifier::ext_equal]
pub struct UdpPacketView {
    pub src_ip: IpAddr,
    pub dst_ip: IpAddr,
    pub src_port: u16,
    pub dst_port: u16,
    pub payload: Seq<u8>,
}

/// What a `ParsedPacket` says.
#[verifier::ext_equal]
pub enum PacketView {
    Tcp(TcpPacketView),
    Udp(UdpPacketView),
    Other { protocol: u8 },
}

impl View for TcpPacketInfo {
    type V = TcpPacketView;

    open spec fn view(&self) -> TcpPacketView {
        TcpPacketView {
            src_ip: self.src_ip,
            dst_ip: self.dst_ip,
            src_port: self.src_port,
            dst_port: self.dst_port,
            seq: self.seq,
            ack: self.ack,
            flags: self.flags,
            window: self.window,
            payload: self.payload@,
        }
    }
}

impl View for UdpPacketInfo {
    type V = UdpPacketView;

    open spec fn view(&self) -> UdpPacketView {
        UdpPacketView {
            src_ip: self.src_ip,
            dst_ip: self.dst_ip,
            src_port: self.src_port,
            dst_port: self.dst_port,
            payload: self.payload@,
        }
    }
}

impl View for ParsedPacket {
    type V = PacketView;

    open spec fn view(&self) -> PacketView {
        match *self {
            ParsedPacket::Tcp(tcp) => PacketView::Tcp(tcp@),
            ParsedPacket::Udp(udp) => PacketView::Udp(udp@),
            ParsedPacket::Other { protocol } => PacketView::Other { protocol },
        }
    }
}

impl TcpFlags {
    /// No flag set.
    pub open spec fn none() -> TcpFlags {
        TcpFlags { syn: false, ack: false, fin: false, rst: false, psh: false }
    }
}

impl Default for TcpFlags {
    fn default() -> (r: TcpFlags)
        ensures
            r == TcpFlags::none(),
    {
        TcpFlags { syn: false, ack: false, fin: false, rst: false, psh: false }
    }
}

/// Why a packet could not be parsed.
#[derive(Debug)]
pub enum PacketError {
    /// There are no bytes.
    Empty,
    /// The version is neither 4 nor 6.
    UnknownVersion(u8),
    /// Fewer bytes than an IPv4 header takes.
    Ipv4TooShort,
    /// The IPv4 header is not whole or its length field is wrong.
    Ipv4Header(etherparse::err::ipv4::HeaderSliceError),
    /// Fewer bytes than an IPv6 header takes.
    Ipv6TooShort,
    /// The IPv6 header was refused.
    Ipv6Header(etherparse::err::ipv6::HeaderSliceError),
    /// The chain of IPv6 extension headers was refused.
    Ipv6Extensions(etherparse::err::ipv6_exts::HeaderSliceError),
    /// Fewer bytes than a TCP header takes.
    TcpTooShort,
    /// The TCP header is not whole or its length field is wrong.
    TcpHeader(etherparse::err::tcp::HeaderSliceError),
    /// Fewer bytes than a UDP header takes.
    UdpTooShort,
    /// The UDP header was refused.
    UdpHeader(etherparse::err::LenError),
}

/// The kind of a `PacketError`.
pub enum PacketFault {
    Empty,
    UnknownVersion(u8),
    Ipv4TooShort,
    Ipv4Header,
    Ipv6TooShort,
    Ipv6Header,
    Ipv6Extensions,
    TcpTooShort,
    TcpHeader,
    UdpTooShort,
    UdpHeader,
}

impl View for PacketError {
    type V = PacketFault;

    open spec fn view(&self) -> PacketFault {
        match *self {
            PacketError::Empty => PacketFault::Empty,
            PacketError::UnknownVersion(v) => PacketFault::UnknownVersion(v),
            PacketError::Ipv4TooShort => PacketFault::Ipv4TooShort,
            PacketError::Ipv4Header(_) => PacketFault::Ipv4Header,
            PacketError::Ipv6TooShort => PacketFault::Ipv6TooShort,
            PacketError::Ipv6Header(_) => PacketFault::Ipv6Header,
            PacketError::Ipv6Extensions(_) => PacketFault::Ipv6Extensions,
            PacketError::TcpTooShort => PacketFault::TcpTooShort,
            PacketError::TcpHeader(_) => PacketFault::TcpHeader,
            PacketError::UdpTooShort => PacketFault::UdpTooShort,
            PacketError::UdpHeader(_) => PacketFault::UdpHeader,
        }
    }
}

/// What the outcome of a parse says.
pub open spec fn outcome(r: Result<ParsedPacket, PacketError>) -> Result<PacketView, PacketFault> {
    match r {
        Ok(p) => Ok(p@),
        Err(e) => Err(e@),
    }
}

/// The IPv4 address in four bytes.
pub open spec fn ipv4_at(s: Seq<u8>) -> IpAddr {
    IpAddr::V4(Ipv4Addr { bits: bytes::be_value(s) as u32 })
}

/// The IPv6 address in sixteen bytes.
pub open spec fn ipv6_at(s: Seq<u8>) -> IpAddr {
    IpAddr::V6(Ipv6Addr { bits: bytes::be_value(s) as u128 })
}

/// What a transport payload says, given the protocol number and the addresses.
pub open spec fn transport_says(
    protocol: u8,
    src_ip: IpAddr,
    dst_ip: IpAddr,
    t: Seq<u8>,
) -> Result<PacketView, PacketFault> {
    if protocol == 6 {
        if t.len() < 20 {
            Err(PacketFault::TcpTooShort)
        } else if !wire::tcp_header_ok(t) {
            Err(PacketFault::TcpHeader)
        } else {
            Ok(
                PacketView::Tcp(
                    TcpPacketView {
                        src_ip,
                        dst_ip,
                        src_port: bytes::be_value(t.subrange(0, 2)) as u16,
                        dst_port: bytes::be_value(t.subrange(2, 4)) as u16,
                        seq: bytes::be_value(t.subrange(4, 8)) as u32,
                        ack: bytes::be_value(t.subrange(8, 12)) as u32,
                        flags: wire::flags_of_byte(t[13]),
                        window: bytes::be_value(t.subrange(14, 16)) as u16,
                        payload: t.skip(4 * (t[12] / 16)),
                    },
                ),
            )
        }
    } else if protocol == 17 {
        if t.len() < 8 {
            Err(PacketFault::UdpTooShort)
        } else {
            Ok(
                PacketView::Udp(
                    UdpPacketView {
                        src_ip,
                        dst_ip,
                        src_port: bytes::be_value(t.subrange(0, 2)) as u16,
                        dst_port: bytes::be_value(t.subrange(2, 4)) as u16,
                        payload: t.skip(8),
                    },
                ),
            )
        }
    } else {
        Ok(PacketView::Other { protocol })
    }
}

/// What an IPv4 packet says.
pub open spec fn ipv4_says(data: Seq<u8>) -> Result<PacketView, PacketFault> {
    if data.len() < 20 {
        Err(PacketFault::Ipv4TooShort)
    } else if !wire::ipv4_header_ok(data) {
        Err(PacketFault::Ipv4Header)
    } else {
        let total_len = bytes::be_value(data.subrange(2, 4));
        let end = if total_len <= data.len() { total_len } else { data.len() };
        transport_says(
            data[9],
            ipv4_at(data.subrange(12, 16)),
            ipv4_at(data.subrange(16, 20)),
            data.subrange(4 * (data[0] % 16), end as int),
        )
    }
}

/// What an IPv6 packet says.
pub open spec fn ipv6_says(data: Seq<u8>) -> Result<PacketView, PacketFault> {
    if data.len() < 40 {
        Err(PacketFault::Ipv6TooShort)
    } else if data[0] / 16 != 6 {
        Err(PacketFault::Ipv6Header)
    } else {
        let declared = 40 + bytes::be_value(data.subrange(4, 6));
        let end = if declared <= data.len() { declared } else { data.len() };
        match wire::behind_ipv6_extensions(data[6], data.subrange(40, end as int), true) {
            None => Err(PacketFault::Ipv6Extensions),
            Some((protocol, t)) => transport_says(
                protocol,
                ipv6_at(data.subrange(8, 24)),
                ipv6_at(data.subrange(24, 40)),
                t,
            ),
        }
    }
}

/// What a packet says.
pub open spec fn packet_says(data: Seq<u8>) -> Result<PacketView, PacketFault> {
    if data.len() == 0 {
        Err(PacketFault::Empty)
    } else if data[0] / 16 == 4 {
        ipv4_says(data)
    } else if data[0] / 16 == 6 {
        ipv6_says(data)
    } else {
        Err(PacketFault::UnknownVersion((data[0] / 16) as u8))
    }
}

/// The length that the header of a packet declares for the packet, header included.
pub open spec fn declared_len(data: Seq<u8>) -> nat {
    if data[0] / 16 == 4 {
        bytes::be_value(data.subrange(2, 4))
    } else {
        40 + bytes::be_value(data.subrange(4, 6))
    }
}

/// Whether `data` starts with a packet whose header is whole, and the length that
/// the header declares for the packet ends within `data`.
pub open spec fn ends_within(data: Seq<u8>) -> bool {
    &&& wire::ipv4_header_ok(data) || wire::ipv6_header_ok(data)
    &&& declared_len(data) <= data.len()
}

/// Whether `data` is a packet whose header is whole and declares just its length.
pub open spec fn is_whole(data: Seq<u8>) -> bool {
    ends_within(data) && declared_len(data) == data.len()
}

/// Bytes behind the end that the header of a packet declares change nothing in what
/// the packet says.
pub proof fn law_bytes_behind_the_end_do_not_count(data: Seq<u8>, junk: Seq<u8>)
    requires
        ends_within(data),
        lengths_agree(data),
    ensures
        packet_says(data + junk) == packet_says(data),
        lengths_agree(data + junk),
{
    let all = data + junk;
    assert(all.subrange(2, 4) =~= data.subrange(2, 4));
    let end = declared_len(data) as int;
    if data[0] / 16 == 4 {
        assert(all.subrange(12, 16) =~= data.subrange(12, 16));
        assert(all.subrange(16, 20) =~= data.subrange(16, 20));
        let start = 4 * (data[0] % 16);
        assert(all.subrange(start, end) =~= data.subrange(start, end));
    } else {
        assert(all.subrange(4, 6) =~= data.subrange(4, 6));
        assert(all.subrange(8, 24) =~= data.subrange(8, 24));
        assert(all.subrange(24, 40) =~= data.subrange(24, 40));
        assert(all.subrange(40, end) =~= data.subrange(40, end));
    }
}

/// Whether the lengths in an IPv4 packet agree: the whole packet is declared no
/// shorter than its header. Other packets have no such pair of lengths.
pub open spec fn lengths_agree(data: Seq<u8>) -> bool {
    wire::ipv4_header_ok(data) ==> bytes::be_value(data.subrange(2, 4)) >= 4 * (data[0] % 16)
}

/// Whether the lengths in an IPv4 packet agree, as `lengths_agree` says.
pub fn check_lengths(data: &[u8]) -> (ok: bool)
    ensures
        ok == lengths_agree(data@),
{
    match wire::ipv4_header(data) {
        Ok(h) => h.total_len as usize >= h.header_len,
        Err(_) => true,
    }
}

/// Parse an IP packet from raw bytes
pub fn parse_ip_packet(data: &[u8]) -> (r: Result<ParsedPacket, PacketError>)
    requires
        lengths_agree(data@),
    ensures
        outcome(r) == packet_says(data@),
{
    if data.len() == 0 {
        return Err(PacketError::Empty);
    }
    let version: u8 = data[0] / 16;
    if version == 4 {
        parse_ipv4_packet(data)
    } else if version == 6 {
        parse_ipv6_packet(data)
    } else {
        Err(PacketError::UnknownVersion(version))
    }
}

fn parse_ipv4_packet(data: &[u8]) -> (r: Result<ParsedPacket, PacketError>)
    requires
        lengths_agree(data@),
    ensures
        outcome(r) == ipv4_says(data@),
{
    if data.len() < 20 {
        return Err(PacketError::Ipv4TooShort);
    }
    let h = match wire::ipv4_header(data) {
        Ok(h) => h,
        Err(e) => return Err(PacketError::Ipv4Header(e)),
    };
    let src_ip: IpAddr = IpAddr::V4(Ipv4Addr::from_octets(h.source));
    let dst_ip: IpAddr = IpAddr::V4(Ipv4Addr::from_octets(h.destination));
    let total_len: usize = h.total_len as usize;
    let payload_end: usize = if total_len <= data.len() { total_len } else { data.len() };
    let ip_payload = vstd::slice::slice_subrange(data, h.header_len, payload_end);
    parse_transport(h.protocol, src_ip, dst_ip, ip_payload)
}

fn parse_ipv6_packet(data: &[u8]) -> (r: Result<ParsedPacket, PacketError>)
    requires
        data@.len() > 0,
        data@[0] / 16 == 6,
    ensures
        outcome(r) == ipv6_says(data@),
{
    if data.len() < 40 {
        return Err(PacketError::Ipv6TooShort);
    }
    let h = match wire::ipv6_header(data) {
        Ok(h) => h,
        Err(e) => return Err(PacketError::Ipv6Header(e)),
    };
    let src_ip: IpAddr = IpAddr::V6(Ipv6Addr::from_octets(h.source));
    let dst_ip: IpAddr = IpAddr::V6(Ipv6Addr::from_octets(h.destination));
    let declared: usize = 40 + h.payload_length as usize;
    let end: usize = if declared <= data.len() { declared } else { data.len() };
    let remaining = vstd::slice::slice_subrange(data, 40, end);
    // Walk extension headers to find the actual transport protocol and payload
    match wire::ipv6_extensions(h.next_header, remaining) {
        Ok((protocol, transport_payload)) => parse_transport(
            protocol,
            src_ip,
            dst_ip,
            transport_payload,
        ),
        Err(e) => Err(PacketError::Ipv6Extensions(e)),
    }
}

/// Reads a transport payload, given the protocol number and the addresses.
pub fn parse_transport(
    protocol: u8,
    src_ip: IpAddr,
    dst_ip: IpAddr,
    ip_payload: &[u8],
) -> (r: Result<ParsedPacket, PacketError>)
    ensures
        outcome(r) == transport_says(protocol, src_ip, dst_ip, ip_payload@),
{
    if protocol == 6 {
        if ip_payload.len() < 20 {
            return Err(PacketError::TcpTooShort);
        }
        let h = match wire::tcp_header(ip_payload) {
            Ok(h) => h,
            Err(e) => return Err(PacketError::TcpHeader(e)),
        };
        let payload = vstd::slice::slice_subrange(ip_payload, h.header_len, ip_payload.len());
        let tcp = TcpPacketInfo {
            src_ip,
            dst_ip,
            src_port: h.source_port,
            dst_port: h.destination_port,
            seq: h.sequence_number,
            ack: h.acknowledgment_number,
            flags: h.flags,
            window: h.window_size,
            payload: vstd::slice::slice_to_vec(payload),
        };
        proof {
            assert(tcp@.payload =~= ip_payload@.skip(h.header_len as int));
        }
        Ok(ParsedPacket::Tcp(tcp))
    } else if protocol == 17 {
        if ip_payload.len() < 8 {
            return Err(PacketError::UdpTooShort);
        }
        let h = match wire::udp_header(ip_payload) {
            Ok(h) => h,
            Err(e) => return Err(PacketError::UdpHeader(e)),
        };
        let payload = vstd::slice::slice_subrange(ip_payload, 8, ip_payload.len());
        let udp = UdpPacketInfo {
            src_ip,
            dst_ip,
            src_port: h.source_port,
            dst_port: h.destination_port,
            payload: vstd::slice::slice_to_vec(payload),
        };
        proof {
            assert(udp@.payload =~= ip_payload@.skip(8));
        }
        Ok(ParsedPacket::Udp(udp))
    } else {
        Ok(ParsedPacket::Other { protocol })
    }
}

/// The longest payload of a TCP segment that one packet of this family carries.
pub open spec fn tcp_payload_limit(ip: IpAddr) -> nat {
    match ip {
        IpAddr::V4(_) => 65495,
        IpAddr::V6(_) => 65515,
    }
}

/// The longest payload of a UDP datagram that one packet of this family carries.
pub open spec fn udp_payload_limit(ip: IpAddr) -> nat {
    match ip {
        IpAddr::V4(_) => 65507,
        IpAddr::V6(_) => 65527,
    }
}

/// The length of an IP header of this family and a TCP header, both without options.
pub open spec fn tcp_headers_len(ip: IpAddr) -> nat {
    match ip {
        IpAddr::V4(_) => 40,
        IpAddr::V6(_) => 60,
    }
}

/// The length of an IP header of this family, without options, and a UDP header.
pub open spec fn udp_headers_len(ip: IpAddr) -> nat {
    match ip {
        IpAddr::V4(_) => 28,
        IpAddr::V6(_) => 48,
    }
}

impl TcpPacketView {
    /// Whether one packet can carry this segment: its addresses are of one family
    /// and its payload is not too long.
    pub open spec fn buildable(self) -> bool {
        &&& self.src_ip.same_family(self.dst_ip)
        &&& self.payload.len() <= tcp_payload_limit(self.src_ip)
    }

    /// What arrives when this segment is sent: the acknowledgment number travels
    /// with the flag that makes it count, and is zero without it.
    pub open spec fn as_sent(self) -> TcpPacketView {
        TcpPacketView {
            ack: if self.flags.ack {
                self.ack
            } else {
                0
            },
            ..self
        }
    }

    /// The bytes of this segment on the wire.
    pub open spec fn wire_bytes(self) -> Seq<u8> {
        let ack = self.as_sent().ack;
        match (self.src_ip, self.dst_ip) {
            (IpAddr::V4(src), IpAddr::V4(dst)) => wire::ipv4_tcp_packet(
                src.octets_view(),
                dst.octets_view(),
                TTL,
                self.src_port,
                self.dst_port,
                self.seq,
                ack,
                self.flags,
                self.window,
                self.payload,
            ),
            (IpAddr::V6(src), IpAddr::V6(dst)) => wire::ipv6_tcp_packet(
                src.octets_view(),
                dst.octets_view(),
                TTL,
                self.src_port,
                self.dst_port,
                self.seq,
                ack,
                self.flags,
                self.window,
                self.payload,
            ),
            _ => Seq::empty(),
        }
    }
}

impl UdpPacketView {
    /// Whether one packet can carry this datagram: its addresses are of one family
    /// and its payload is not too long.
    pub open spec fn buildable(self) -> bool {
        &&& self.src_ip.same_family(self.dst_ip)
        &&& self.payload.len() <= udp_payload_limit(self.src_ip)
    }

    /// The bytes of this datagram on the wire.
    pub open spec fn wire_bytes(self) -> Seq<u8> {
        match (self.src_ip, self.dst_ip) {
            (IpAddr::V4(src), IpAddr::V4(dst)) => wire::ipv4_udp_packet(
                src.octets_view(),
                dst.octets_view(),
                TTL,
                self.src_port,
                self.dst_port,
                self.payload,
            ),
            (IpAddr::V6(src), IpAddr::V6(dst)) => wire::ipv6_udp_packet(
                src.octets_view(),
                dst.octets_view(),
                TTL,
                self.src_port,
                self.dst_port,
                self.payload,
            ),
            _ => Seq::empty(),
        }
    }
}

/// A packet that starts with an IPv4 header says what its body says.
pub proof fn law_ipv4_layout_is_read_back(
    b: Seq<u8>,
    src: Ipv4Addr,
    dst: Ipv4Addr,
    ttl: u8,
    protocol: u8,
    body_len: nat,
)
    requires
        body_len <= 65515,
        wire::ipv4_layout(b, src.octets_view(), dst.octets_view(), ttl, protocol, body_len),
    ensures
        is_whole(b),
        b[8] == ttl,
        lengths_agree(b),
        packet_says(b) == transport_says(protocol, IpAddr::V4(src), IpAddr::V4(dst), b.skip(20)),
{
    bytes::lemma_byte_ranges();
    let head = b.subrange(0, 10);
    bytes::lemma_be_bytes_len(20 + body_len, 2);
    assert(head[0] == 0x45 && b[0] == head[0]);
    assert(head[9] == protocol && b[9] == head[9]);
    assert(head[8] == ttl && b[8] == head[8]);
    assert(b.subrange(2, 4) =~= head.subrange(2, 4));
    assert(head.subrange(2, 4) =~= bytes::be_bytes(20 + body_len, 2));
    bytes::lemma_read_written(20 + body_len, 2);
    bytes::lemma_read_written(src.bits as nat, 4);
    bytes::lemma_read_written(dst.bits as nat, 4);
    assert(b.subrange(20, b.len() as int) =~= b.skip(20));
}

/// A packet that starts with an IPv6 header says what its body says, where no
/// extension header follows.
pub proof fn law_ipv6_layout_is_read_back(
    b: Seq<u8>,
    src: Ipv6Addr,
    dst: Ipv6Addr,
    hop_limit: u8,
    next_header: u8,
    body_len: nat,
)
    requires
        body_len <= 65535,
        !wire::is_ipv6_extension(next_header),
        wire::ipv6_layout(b, src.octets_view(), dst.octets_view(), hop_limit, next_header, body_len),
    ensures
        is_whole(b),
        b[7] == hop_limit,
        lengths_agree(b),
        packet_says(b) == transport_says(
            next_header,
            IpAddr::V6(src),
            IpAddr::V6(dst),
            b.skip(40),
        ),
{
    bytes::lemma_byte_ranges();
    let head = b.subrange(0, 8);
    bytes::lemma_be_bytes_len(body_len, 2);
    assert(head[0] == 0x60 && b[0] == head[0]);
    assert(head[6] == next_header && b[6] == head[6]);
    assert(head[7] == hop_limit && b[7] == head[7]);
    assert(b.subrange(4, 6) =~= head.subrange(4, 6));
    assert(head.subrange(4, 6) =~= bytes::be_bytes(body_len, 2));
    bytes::lemma_read_written(body_len, 2);
    bytes::lemma_read_written(src.bits as nat, 16);
    bytes::lemma_read_written(dst.bits as nat, 16);
    assert(b.subrange(40, b.len() as int) =~= b.skip(40));
}

/// A TCP segment says the fields that were written into it.
pub proof fn law_tcp_layout_is_read_back(
    t: Seq<u8>,
    src_ip: IpAddr,
    dst_ip: IpAddr,
    src_port: u16,
    dst_port: u16,
    seq: u32,
    ack: u32,
    flags: TcpFlags,
    window: u16,
    payload: Seq<u8>,
)
    requires
        wire::tcp_layout(t, src_port, dst_port, seq, ack, flags, window, payload),
    ensures
        transport_says(6, src_ip, dst_ip, t) == Ok::<PacketView, PacketFault>(
            PacketView::Tcp(
                TcpPacketView {
                    src_ip,
                    dst_ip,
                    src_port,
                    dst_port,
                    seq,
                    ack,
                    flags,
                    window,
                    payload,
                },
            ),
        ),
{
    bytes::lemma_byte_ranges();
    let head = t.subrange(0, 16);
    bytes::lemma_be_bytes_len(src_port as nat, 2);
    bytes::lemma_be_bytes_len(dst_port as nat, 2);
    bytes::lemma_be_bytes_len(seq as nat, 4);
    bytes::lemma_be_bytes_len(ack as nat, 4);
    bytes::lemma_be_bytes_len(window as nat, 2);
    bytes::lemma_read_written(src_port as nat, 2);
    bytes::lemma_read_written(dst_port as nat, 2);
    bytes::lemma_read_written(seq as nat, 4);
    bytes::lemma_read_written(ack as nat, 4);
    bytes::lemma_read_written(window as nat, 2);
    assert(t.subrange(0, 2) =~= head.subrange(0, 2));
    assert(t.subrange(2, 4) =~= head.subrange(2, 4));
    assert(t.subrange(4, 8) =~= head.subrange(4, 8));
    assert(t.subrange(8, 12) =~= head.subrange(8, 12));
    assert(t.subrange(14, 16) =~= head.subrange(14, 16));
    assert(head.subrange(0, 2) =~= bytes::be_bytes(src_port as nat, 2));
    assert(head.subrange(2, 4) =~= bytes::be_bytes(dst_port as nat, 2));
    assert(head.subrange(4, 8) =~= bytes::be_bytes(seq as nat, 4));
    assert(head.subrange(8, 12) =~= bytes::be_bytes(ack as nat, 4));
    assert(head.subrange(14, 16) =~= bytes::be_bytes(window as nat, 2));
    assert(head[12] == 0x50 && t[12] == head[12]);
    assert(head[13] == wire::byte_of_flags(flags) && t[13] == head[13]);
    assert(wire::flags_of_byte(wire::byte_of_flags(flags)) == flags);
}

/// A UDP datagram says the fields that were written into it.
pub proof fn law_udp_layout_is_read_back(
    t: Seq<u8>,
    src_ip: IpAddr,
    dst_ip: IpAddr,
    src_port: u16,
    dst_port: u16,
    payload: Seq<u8>,
)
    requires
        wire::udp_layout(t, src_port, dst_port, payload),
    ensures
        transport_says(17, src_ip, dst_ip, t) == Ok::<PacketView, PacketFault>(
            PacketView::Udp(UdpPacketView { src_ip, dst_ip, src_port, dst_port, payload }),
        ),
{
    bytes::lemma_byte_ranges();
    let head = t.subrange(0, 6);
    bytes::lemma_be_bytes_len(src_port as nat, 2);
    bytes::lemma_be_bytes_len(dst_port as nat, 2);
    bytes::lemma_be_bytes_len(8 + payload.len(), 2);
    bytes::lemma_read_written(src_port as nat, 2);
    bytes::lemma_read_written(dst_port as nat, 2);
    assert(t.subrange(0, 2) =~= head.subrange(0, 2));
    assert(t.subrange(2, 4) =~= head.subrange(2, 4));
    assert(head.subrange(0, 2) =~= bytes::be_bytes(src_port as nat, 2));
    assert(head.subrange(2, 4) =~= bytes::be_bytes(dst_port as nat, 2));
}

/// Build a TCP packet
///
/// Parsing the packet gives back what it was built from. The packet has no options,
/// and its header declares just its length.
pub fn build_tcp_packet(
    src_ip: IpAddr,
    dst_ip: IpAddr,
    src_port: u16,
    dst_port: u16,
    seq: u32,
    ack: u32,
    flags: TcpFlags,
    window: u16,
    payload: &[u8],
) -> (out: Vec<u8>)
    requires
        src_ip.same_family(dst_ip),
        payload@.len() <= tcp_payload_limit(src_ip),
    ensures
        ({
            let segment = TcpPacketView {
                src_ip,
                dst_ip,
                src_port,
                dst_port,
                seq,
                ack,
                flags,
                window,
                payload: payload@,
            };
            &&& out@ == segment.wire_bytes()
            &&& out@.len() == tcp_headers_len(src_ip) + payload@.len()
            &&& out@.len() == (if src_ip is V4 {
                40int
            } else {
                60
            }) + payload@.len()
            &&& out@[if src_ip is V4 {
                8
            } else {
                7
            }] == 64
            &&& is_whole(out@)
            &&& lengths_agree(out@)
            &&& packet_says(out@) == Ok::<PacketView, PacketFault>(
                PacketView::Tcp(segment.as_sent()),
            )
        }),
{
    let sent_ack: u32 = if flags.ack { ack } else { 0 };
    match (src_ip, dst_ip) {
        (IpAddr::V4(src), IpAddr::V4(dst)) => {
            let out = wire::write_ipv4_tcp(
                src.octets(),
                dst.octets(),
                TTL,
                src_port,
                dst_port,
                seq,
                sent_ack,
                flags,
                window,
                payload,
            );
            proof {
                law_ipv4_layout_is_read_back(out@, src, dst, TTL, 6, 20 + payload@.len());
                law_tcp_layout_is_read_back(
                    out@.skip(20),
                    src_ip,
                    dst_ip,
                    src_port,
                    dst_port,
                    seq,
                    sent_ack,
                    flags,
                    window,
                    payload@,
                );
            }
            out
        },
        (IpAddr::V6(src), IpAddr::V6(dst)) => {
            let out = wire::write_ipv6_tcp(
                src.octets(),
                dst.octets(),
                TTL,
                src_port,
                dst_port,
                seq,
                sent_ack,
                flags,
                window,
                payload,
            );
            proof {
                law_ipv6_layout_is_read_back(out@, src, dst, TTL, 6, 20 + payload@.len());
                law_tcp_layout_is_read_back(
                    out@.skip(40),
                    src_ip,
                    dst_ip,
                    src_port,
                    dst_port,
                    seq,
                    sent_ack,
                    flags,
                    window,
                    payload@,
                );
            }
            out
        },
        _ => Vec::new(),
    }
}

/// Build a UDP packet
///
/// Parsing the packet gives back what it was built from. The packet has no options,
/// and its header declares just its length.
pub fn build_udp_packet(
    src_ip: IpAddr,
    dst_ip: IpAddr,
    src_port: u16,
    dst_port: u16,
    payload: &[u8],
) -> (out: Vec<u8>)
    requires
        src_ip.same_family(dst_ip),
        payload@.len() <= udp_payload_limit(src_ip),
    ensures
        ({
            let datagram = UdpPacketView { src_ip, dst_ip, src_port, dst_port, payload: payload@ };
            &&& out@ == datagram.wire_bytes()
            &&& out@.len() == udp_headers_len(src_ip) + payload@.len()
            &&& out@.len() == (if src_ip is V4 {
                28int
            } else {
                48
            }) + payload@.len()
            &&& out@[if src_ip is V4 {
                8
            } else {
                7
            }] == 64
            &&& is_whole(out@)
            &&& lengths_agree(out@)
            &&& packet_says(out@) == Ok::<PacketView, PacketFault>(PacketView::Udp(datagram))
        }),
{
    match (src_ip, dst_ip) {
        (IpAddr::V4(src), IpAddr::V4(dst)) => {
            let out = wire::write_ipv4_udp(
                src.octets(),
                dst.octets(),
                TTL,
                src_port,
                dst_port,
                payload,
            );
            proof {
                law_ipv4_layout_is_read_back(out@, src, dst, TTL, 17, 8 + payload@.len());
                law_udp_layout_is_read_back(
                    out@.skip(20),
                    src_ip,
                    dst_ip,
                    src_port,
                    dst_port,
                    payload@,
                );
            }
            out
        },
        (IpAddr::V6(src), IpAddr::V6(dst)) => {
            let out = wire::write_ipv6_udp(
                src.octets(),
                dst.octets(),
                TTL,
                src_port,
                dst_port,
                payload,
            );
            proof {
                law_ipv6_layout_is_read_back(out@, src, dst, TTL, 17, 8 + payload@.len());
                law_udp_layout_is_read_back(
                    out@.skip(40),
                    src_ip,
                    dst_ip,
                    src_port,
                    dst_port,
                    payload@,
                );
            }
            out
        },
        _ => Vec::new(),
    }
}

impl TcpPacketInfo {
    /// Whether one packet can carry this segment.
    pub fn is_buildable(&self) -> (r: bool)
        ensures
            r == self@.buildable(),
    {
        match (self.src_ip, self.dst_ip) {
            (IpAddr::V4(_), IpAddr::V4(_)) => self.payload.len() <= 65495,
            (IpAddr::V6(_), IpAddr::V6(_)) => self.payload.len() <= 65515,
            _ => false,
        }
    }

    /// The packet that carries this segment.
    pub fn to_packet(&self) -> (out: Vec<u8>)
        requires
            self@.buildable(),
        ensures
            out@ == self@.wire_bytes(),
            out@.len() == tcp_headers_len(self.src_ip) + self.payload@.len(),
            is_whole(out@),
            lengths_agree(out@),
            packet_says(out@) == Ok::<PacketView, PacketFault>(PacketView::Tcp(self@.as_sent())),
    {
        build_tcp_packet(
            self.src_ip,
            self.dst_ip,
            self.src_port,
            self.dst_port,
            self.seq,
            self.ack,
            self.flags,
            self.window,
            self.payload.as_slice(),
        )
    }
}

impl UdpPacketInfo {
    /// Whether one packet can carry this datagram.
    pub fn is_buildable(&self) -> (r: bool)
        ensures
            r == self@.buildable(),
    {
        match (self.src_ip, self.dst_ip) {
            (IpAddr::V4(_), IpAddr::V4(_)) => self.payload.len() <= 65507,
            (IpAddr::V6(_), IpAddr::V6(_)) => self.payload.len() <= 65527,
            _ => false,
        }
    }

    /// The packet that carries this datagram.
    pub fn to_packet(&self) -> (out: Vec<u8>)
        requires
            self@.buildable(),
        ensures
            out@ == self@.wire_bytes(),
            out@.len() == udp_headers_len(self.src_ip) + self.payload@.len(),
            is_whole(out@),
            lengths_agree(out@),
            packet_says(out@) == Ok::<PacketView, PacketFault>(PacketView::Udp(self@)),
    {
        build_udp_packet(
            self.src_ip,
            self.dst_ip,
            self.src_port,
            self.dst_port,
            self.payload.as_slice(),
        )
    }
}

} // verus!
