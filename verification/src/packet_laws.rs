//! What the bytes of a packet mean, byte by byte.

use vstd::prelude::*;

use crate::addr::{IpAddr, Ipv4Addr, Ipv6Addr};
use crate::bytes;
use crate::packet;
use crate::packet::{PacketFault, PacketView, TcpPacketView, UdpPacketView};
use crate::wire;

verus! {

/// Two bytes are a number, the first byte counting 256.
pub proof fn law_two_bytes(s: Seq<u8>, i: int)
    requires
        0 <= i,
        i + 2 <= s.len(),
    ensures
        bytes::be_value(s.subrange(i, i + 2)) == s[i] * 256 + s[i + 1],
{
    let t = s.subrange(i, i + 2);
    reveal_with_fuel(bytes::be_value, 3);
    assert(t.drop_last() =~= seq![s[i]]);
    assert(t.drop_last().drop_last() =~= Seq::<u8>::empty());
}

/// Four bytes are a number, each byte counting 256 times the next one.
pub proof fn law_four_bytes(s: Seq<u8>, i: int)
    requires
        0 <= i,
        i + 4 <= s.len(),
    ensures
        bytes::be_value(s.subrange(i, i + 4)) == s[i] * 0x100_0000 + s[i + 1] * 0x1_0000 + s[i + 2]
            * 0x100 + s[i + 3],
{
    let t = s.subrange(i, i + 4);
    law_two_bytes(s, i);
    reveal_with_fuel(bytes::be_value, 3);
    assert(t.drop_last().drop_last() =~= s.subrange(i, i + 2));
}

/// The payload of a TCP segment is what follows the header, whose length is the number
/// of words in the upper half of byte 12, options counted; each other field is read
/// from its place in the header.
pub proof fn law_tcp_payload_follows_the_header(
    src_ip: IpAddr,
    dst_ip: IpAddr,
    header: Seq<u8>,
    payload: Seq<u8>,
)
    requires
        header.len() >= 20,
        header.len() == 4 * (header[12] / 16),
    ensures
        packet::transport_says(6, src_ip, dst_ip, header + payload) matches Ok(
            PacketView::Tcp(tcp),
        ) && {
            &&& tcp.src_ip == src_ip
            &&& tcp.dst_ip == dst_ip
            &&& tcp.payload == payload
            &&& tcp.src_port == header[0] * 256 + header[1]
            &&& tcp.dst_port == header[2] * 256 + header[3]
            &&& tcp.seq == header[4] * 0x100_0000 + header[5] * 0x1_0000 + header[6] * 0x100
                + header[7]
            &&& tcp.ack == header[8] * 0x100_0000 + header[9] * 0x1_0000 + header[10] * 0x100
                + header[11]
            &&& tcp.window == header[14] * 256 + header[15]
            &&& tcp.flags.fin == (header[13] % 2 == 1)
            &&& tcp.flags.syn == (header[13] / 2 % 2 == 1)
            &&& tcp.flags.rst == (header[13] / 4 % 2 == 1)
            &&& tcp.flags.psh == (header[13] / 8 % 2 == 1)
            &&& tcp.flags.ack == (header[13] / 16 % 2 == 1)
        },
{
    let t = header + payload;
    law_two_bytes(t, 0);
    law_two_bytes(t, 2);
    law_four_bytes(t, 4);
    law_four_bytes(t, 8);
    law_two_bytes(t, 14);
    assert(t.skip(header.len() as int) =~= payload);
}

/// The payload of a UDP datagram is what follows the eight bytes of the header; the
/// ports are the first four of them.
pub proof fn law_udp_payload_follows_the_header(
    src_ip: IpAddr,
    dst_ip: IpAddr,
    header: Seq<u8>,
    payload: Seq<u8>,
)
    requires
        header.len() == 8,
    ensures
        packet::transport_says(17, src_ip, dst_ip, header + payload) matches Ok(
            PacketView::Udp(udp),
        ) && {
            &&& udp.src_ip == src_ip
            &&& udp.dst_ip == dst_ip
            &&& udp.payload == payload
            &&& udp.src_port == header[0] * 256 + header[1]
            &&& udp.dst_port == header[2] * 256 + header[3]
        },
{
    let t = header + payload;
    law_two_bytes(t, 0);
    law_two_bytes(t, 2);
    assert(t.skip(8) =~= payload);
}

/// A transport payload is refused exactly where its header is not whole, and one of
/// another protocol is known by its number alone.
pub proof fn law_which_transports_are_refused(
    protocol: u8,
    src_ip: IpAddr,
    dst_ip: IpAddr,
    t: Seq<u8>,
)
    ensures
        protocol == 6 && t.len() < 20 ==> packet::transport_says(protocol, src_ip, dst_ip, t)
            == Err::<PacketView, PacketFault>(PacketFault::TcpTooShort),
        protocol == 6 && t.len() >= 20 && (t[12] < 0x50 || t.len() < 4 * (t[12] / 16))
            ==> packet::transport_says(protocol, src_ip, dst_ip, t) == Err::<
            PacketView,
            PacketFault,
        >(PacketFault::TcpHeader),
        protocol == 6 && t.len() >= 20 && t[12] >= 0x50 && t.len() >= 4 * (t[12] / 16)
            ==> packet::transport_says(protocol, src_ip, dst_ip, t) is Ok,
        protocol == 17 && t.len() < 8 ==> packet::transport_says(protocol, src_ip, dst_ip, t)
            == Err::<PacketView, PacketFault>(PacketFault::UdpTooShort),
        protocol == 17 && t.len() >= 8 ==> packet::transport_says(protocol, src_ip, dst_ip, t)
            is Ok,
        protocol != 6 && protocol != 17 ==> packet::transport_says(protocol, src_ip, dst_ip, t)
            == Ok::<PacketView, PacketFault>(PacketView::Other { protocol }),
{
}

/// An IPv4 packet says what its body says: what follows the header, whose length is
/// the number of words in the lower half of its first byte, options counted, up to the
/// length that bytes 2 and 3 declare, or up to the end of the data where that comes
/// first. The protocol and the addresses stand in the header; no other byte counts.
pub proof fn law_ipv4_body_follows_the_header(
    header: Seq<u8>,
    body: Seq<u8>,
    rest: Seq<u8>,
    src: Ipv4Addr,
    dst: Ipv4Addr,
)
    requires
        header.len() >= 20,
        header[0] / 16 == 4,
        header.len() == 4 * (header[0] % 16),
        ({
            let declared = header[2] * 256 + header[3];
            ||| declared == header.len() + body.len()
            ||| declared > header.len() + body.len() && rest.len() == 0
        }),
        src.octets_view() == header.subrange(12, 16),
        dst.octets_view() == header.subrange(16, 20),
    ensures
        packet::lengths_agree(header + body + rest),
        packet::packet_says(header + body + rest) == packet::transport_says(
            header[9],
            IpAddr::V4(src),
            IpAddr::V4(dst),
            body,
        ),
{
    let data = header + body + rest;
    law_two_bytes(data, 2);
    bytes::lemma_byte_ranges();
    bytes::lemma_read_written(src.bits as nat, 4);
    bytes::lemma_read_written(dst.bits as nat, 4);
    assert(data.subrange(12, 16) =~= header.subrange(12, 16));
    assert(data.subrange(16, 20) =~= header.subrange(16, 20));
    let end = header.len() + body.len();
    assert(data.subrange(header.len() as int, end as int) =~= body);
}

/// An IPv6 packet says what follows its extension headers: they start behind the 40
/// bytes of the header and reach up to the length that bytes 4 and 5 declare, or up to
/// the end of the data where that comes first. The number of the first of them and the
/// addresses stand in the header; no other byte counts.
pub proof fn law_ipv6_body_follows_the_header(
    header: Seq<u8>,
    body: Seq<u8>,
    rest: Seq<u8>,
    src: Ipv6Addr,
    dst: Ipv6Addr,
)
    requires
        header.len() == 40,
        header[0] / 16 == 6,
        ({
            let declared = header[4] * 256 + header[5];
            ||| declared == body.len()
            ||| declared > body.len() && rest.len() == 0
        }),
        src.octets_view() == header.subrange(8, 24),
        dst.octets_view() == header.subrange(24, 40),
    ensures
        packet::packet_says(header + body + rest) == (match wire::behind_ipv6_extensions(
            header[6],
            body,
            true,
        ) {
            Some((protocol, t)) => packet::transport_says(
                protocol,
                IpAddr::V6(src),
                IpAddr::V6(dst),
                t,
            ),
            None => Err(PacketFault::Ipv6Extensions),
        }),
{
    let data = header + body + rest;
    law_two_bytes(data, 4);
    bytes::lemma_byte_ranges();
    bytes::lemma_read_written(src.bits as nat, 16);
    bytes::lemma_read_written(dst.bits as nat, 16);
    assert(data.subrange(8, 24) =~= header.subrange(8, 24));
    assert(data.subrange(24, 40) =~= header.subrange(24, 40));
    assert(data.subrange(40, 40 + body.len() as int) =~= body);
}

/// A packet is refused for its own header exactly where it is empty, of an unknown
/// version, too short, or declares an IPv4 header that is too short or not there.
pub proof fn law_which_packets_are_refused(data: Seq<u8>)
    ensures
        data.len() == 0 ==> packet::packet_says(data) == Err::<PacketView, PacketFault>(
            PacketFault::Empty,
        ),
        data.len() > 0 && data[0] / 16 != 4 && data[0] / 16 != 6 ==> packet::packet_says(data)
            == Err::<PacketView, PacketFault>(
            PacketFault::UnknownVersion((data[0] / 16) as u8),
        ),
        0 < data.len() < 20 && data[0] / 16 == 4 ==> packet::packet_says(data) == Err::<
            PacketView,
            PacketFault,
        >(PacketFault::Ipv4TooShort),
        data.len() >= 20 && data[0] / 16 == 4 && (data[0] % 16 < 5 || data.len() < 4 * (data[0]
            % 16)) ==> packet::packet_says(data) == Err::<PacketView, PacketFault>(
            PacketFault::Ipv4Header,
        ),
        0 < data.len() < 40 && data[0] / 16 == 6 ==> packet::packet_says(data) == Err::<
            PacketView,
            PacketFault,
        >(PacketFault::Ipv6TooShort),
        packet::packet_says(data) matches Err(fault) ==> (match fault {
            PacketFault::Empty => data.len() == 0,
            PacketFault::UnknownVersion(v) => v == data[0] / 16 && v != 4 && v != 6,
            PacketFault::Ipv4TooShort => data[0] / 16 == 4 && data.len() < 20,
            PacketFault::Ipv4Header => data[0] / 16 == 4 && (data[0] % 16 < 5 || data.len() < 4 * (
            data[0] % 16)),
            PacketFault::Ipv6TooShort => data[0] / 16 == 6 && data.len() < 40,
            PacketFault::Ipv6Extensions => data[0] / 16 == 6 && data.len() >= 40,
            PacketFault::Ipv6Header | PacketFault::UdpHeader => false,
            PacketFault::TcpTooShort | PacketFault::TcpHeader | PacketFault::UdpTooShort => {
                data.len() >= 20
            },
        }),
{
}

/// An extension header in front of a chain is skipped: by its own account of its
/// length, and to what its first byte announces.
pub proof fn law_extension_header_is_skipped(
    number: u8,
    header: Seq<u8>,
    rest: Seq<u8>,
    in_front: bool,
)
    requires
        header.len() >= 8,
        ({
            ||| number == 0 && in_front && header.len() == 8 * (header[1] + 1)
            ||| (number == 43 || number == 60) && header.len() == 8 * (header[1] + 1)
            ||| number == 44 && header.len() == 8
            ||| number == 51 && header[1] >= 1 && header.len() == 4 * (header[1] + 2)
        }),
    ensures
        wire::behind_ipv6_extensions(number, header + rest, in_front)
            == wire::behind_ipv6_extensions(header[0], rest, false),
{
    assert((header + rest).skip(header.len() as int) =~= rest);
}

/// What is no extension header ends the chain; an extension header that is cut off,
/// and hop-by-hop options that do not stand in front, spoil it.
pub proof fn law_where_extension_chains_end(number: u8, s: Seq<u8>, in_front: bool)
    ensures
        number != 0 && number != 43 && number != 44 && number != 51 && number != 60
            ==> wire::behind_ipv6_extensions(number, s, in_front) == Some((number, s)),
        number == 0 && !in_front ==> wire::behind_ipv6_extensions(number, s, in_front) is None,
        (number == 0 || number == 43 || number == 44 || number == 51 || number == 60) && s.len()
            < 8 ==> wire::behind_ipv6_extensions(number, s, in_front) is None,
        (number == 0 || number == 43 || number == 60) && s.len() >= 8 && s.len() < 8 * (s[1] + 1)
            ==> wire::behind_ipv6_extensions(number, s, in_front) is None,
        number == 51 && s.len() >= 8 && (s[1] == 0 || s.len() < 4 * (s[1] + 2))
            ==> wire::behind_ipv6_extensions(number, s, in_front) is None,
{
}

/// A segment can be built exactly where its addresses are of one family and the length
/// of what follows the IP header, or the whole packet over IPv4, can be counted in two
/// bytes.
pub proof fn law_which_segments_can_be_built(tcp: TcpPacketView)
    ensures
        tcp.buildable() == (match (tcp.src_ip, tcp.dst_ip) {
            (IpAddr::V4(_), IpAddr::V4(_)) => 20 + 20 + tcp.payload.len() < 0x1_0000,
            (IpAddr::V6(_), IpAddr::V6(_)) => 20 + tcp.payload.len() < 0x1_0000,
            _ => false,
        }),
        tcp.as_sent().ack == (if tcp.flags.ack {
            tcp.ack
        } else {
            0
        }),
        tcp.as_sent() == (TcpPacketView { ack: tcp.as_sent().ack, ..tcp }),
{
}

/// A datagram can be built exactly where its addresses are of one family and the length
/// of what follows the IP header, or the whole packet over IPv4, can be counted in two
/// bytes.
pub proof fn law_which_datagrams_can_be_built(udp: UdpPacketView)
    ensures
        udp.buildable() == (match (udp.src_ip, udp.dst_ip) {
            (IpAddr::V4(_), IpAddr::V4(_)) => 20 + 8 + udp.payload.len() < 0x1_0000,
            (IpAddr::V6(_), IpAddr::V6(_)) => 8 + udp.payload.len() < 0x1_0000,
            _ => false,
        }),
{
}

} // verus!
