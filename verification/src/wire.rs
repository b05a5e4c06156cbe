//! The calls into etherparse: header reading and packet writing.
//!
//! What these functions promise is believed, not proved. Each contract says
//! which bytes of its argument a field is read from, or where in its result an
//! argument is written.

use vstd::prelude::*;

use etherparse::{
    IpNumber, Ipv4HeaderSlice, Ipv6ExtensionsSlice, Ipv6HeaderSlice, PacketBuilder, TcpHeader,
    TcpHeaderSlice, UdpHeaderSlice,
};

use crate::bytes;
use crate::packet::TcpFlags;

verus! {

/// Why etherparse refused an IPv4 header.
#[verifier::external_type_specification]
#[verifier::external_body]
pub struct ExIpv4HeaderSliceError(etherparse::err::ipv4::HeaderSliceError);

/// Why etherparse refused an IPv6 header.
#[verifier::external_type_specification]
#[verifier::external_body]
pub struct ExIpv6HeaderSliceError(etherparse::err::ipv6::HeaderSliceError);

/// Why etherparse refused a chain of IPv6 extension headers.
#[verifier::external_type_specification]
#[verifier::external_body]
pub struct ExIpv6ExtsHeaderSliceError(etherparse::err::ipv6_exts::HeaderSliceError);

/// Why etherparse refused a TCP header.
#[verifier::external_type_specification]
#[verifier::external_body]
pub struct ExTcpHeaderSliceError(etherparse::err::tcp::HeaderSliceError);

/// Why etherparse refused a UDP header.
#[verifier::external_type_specification]
#[verifier::external_body]
pub struct ExLenError(etherparse::err::LenError);

/// What an IPv4 header says.
pub struct Ipv4Fields {
    pub source: [u8; 4],
    pub destination: [u8; 4],
    pub protocol: u8,
    pub header_len: usize,
    pub total_len: u16,
}

/// What an IPv6 header says.
pub struct Ipv6Fields {
    pub source: [u8; 16],
    pub destination: [u8; 16],
    pub next_header: u8,
    pub payload_length: u16,
}

/// What a TCP header says.
pub struct TcpFields {
    pub source_port: u16,
    pub destination_port: u16,
    pub sequence_number: u32,
    pub acknowledgment_number: u32,
    pub flags: TcpFlags,
    pub window_size: u16,
    pub header_len: usize,
}

/// What a UDP header says.
pub struct UdpFields {
    pub source_port: u16,
    pub destination_port: u16,
}

/// Whether `data` starts with a whole IPv4 header, its options counted.
pub open spec fn ipv4_header_ok(data: Seq<u8>) -> bool {
    &&& data.len() >= 20
    &&& data[0] / 16 == 4
    &&& data[0] % 16 >= 5
    &&& data.len() >= 4 * (data[0] % 16)
}

/// Whether `data` starts with a whole IPv6 header.
pub open spec fn ipv6_header_ok(data: Seq<u8>) -> bool {
    data.len() >= 40 && data[0] / 16 == 6
}

/// Whether `data` starts with a whole TCP header, its options counted.
pub open spec fn tcp_header_ok(data: Seq<u8>) -> bool {
    &&& data.len() >= 20
    &&& data[12] / 16 >= 5
    &&& data.len() >= 4 * (data[12] / 16)
}

/// The flags that byte 13 of a TCP header carries.
pub open spec fn flags_of_byte(b: u8) -> TcpFlags {
    TcpFlags {
        fin: b % 2 == 1,
        syn: b / 2 % 2 == 1,
        rst: b / 4 % 2 == 1,
        psh: b / 8 % 2 == 1,
        ack: b / 16 % 2 == 1,
    }
}

/// The byte that carries these flags and no others.
pub open spec fn byte_of_flags(f: TcpFlags) -> u8 {
    ((if f.fin { 1int } else { 0 }) + (if f.syn { 2int } else { 0 })
        + (if f.rst { 4int } else { 0 }) + (if f.psh { 8int } else { 0 })
        + (if f.ack { 16int } else { 0 })) as u8
}

/// Whether a protocol number announces an IPv6 extension header that etherparse
/// reads: hop-by-hop options, routing, fragment, authentication, destination
/// options.
pub open spec fn is_ipv6_extension(number: u8) -> bool {
    number == 0 || number == 43 || number == 44 || number == 51 || number == 60
}

/// Whether `t` is the end of `s`.
pub open spec fn is_end_of(t: Seq<u8>, s: Seq<u8>) -> bool {
    t.len() <= s.len() && t == s.skip(s.len() - t.len())
}

/// The length of the IPv6 extension header that `s` starts with, or nothing where it
/// is not whole. The second byte of most headers counts the groups of eight bytes
/// behind the first one; a fragment header has eight bytes; an authentication header
/// counts groups of four bytes behind the first two, of which there is at least one.
pub open spec fn ipv6_extension_len(number: u8, s: Seq<u8>) -> Option<nat> {
    if s.len() < 8 || (number == 51 && s[1] == 0) {
        None
    } else {
        let n: nat = if number == 44 {
            8
        } else if number == 51 {
            4 * (s[1] as nat + 2)
        } else {
            8 * (s[1] as nat + 1)
        };
        if n <= s.len() {
            Some(n)
        } else {
            None
        }
    }
}

/// What follows a chain of IPv6 extension headers, which may be empty: the number of
/// the transport protocol and its bytes, or nothing where a header is not whole or
/// hop-by-hop options do not stand in front. The first byte of each header announces
/// what follows it.
pub open spec fn behind_ipv6_extensions(number: u8, s: Seq<u8>, in_front: bool) -> Option<
    (u8, Seq<u8>),
>
    decreases s.len(),
{
    if !is_ipv6_extension(number) {
        Some((number, s))
    } else if number == 0 && !in_front {
        None
    } else {
        match ipv6_extension_len(number, s) {
            Some(n) => behind_ipv6_extensions(s[0], s.skip(n as int), false),
            None => None,
        }
    }
}

/// What follows a chain of IPv6 extension headers is announced as no extension
/// header, and is the end of the bytes that the chain starts in.
pub proof fn law_extension_chain_ends(number: u8, s: Seq<u8>, in_front: bool)
    ensures
        behind_ipv6_extensions(number, s, in_front) matches Some((protocol, rest))
            ==> !is_ipv6_extension(protocol) && is_end_of(rest, s),
    decreases s.len(),
{
    if is_ipv6_extension(number) && !(number == 0 && !in_front) {
        if let Some(n) = ipv6_extension_len(number, s) {
            let behind = s.skip(n as int);
            law_extension_chain_ends(s[0], behind, false);
            if let Some((_, rest)) = behind_ipv6_extensions(s[0], behind, false) {
                assert(behind.skip(behind.len() - rest.len()) =~= s.skip(s.len() - rest.len()));
            }
        }
    } else {
        assert(s.skip(0) =~= s);
    }
}

/// `etherparse::Ipv4HeaderSlice::from_slice` and the getters of the slice that it
/// returns. Claimed: the header is accepted exactly when it is whole and of
/// version 4, and each field is read from its place in the header.
#[verifier::external_body]
pub(crate) fn ipv4_header(data: &[u8]) -> (r: Result<
    Ipv4Fields,
    etherparse::err::ipv4::HeaderSliceError,
>)
    ensures
        r is Ok <==> ipv4_header_ok(data@),
        r matches Ok(h) ==> h.source@ == data@.subrange(12, 16),
        r matches Ok(h) ==> h.destination@ == data@.subrange(16, 20),
        r matches Ok(h) ==> h.protocol == data@[9],
        r matches Ok(h) ==> h.header_len == 4 * (data@[0] % 16),
        r matches Ok(h) ==> h.total_len as nat == bytes::be_value(data@.subrange(2, 4)),
{
    let h = Ipv4HeaderSlice::from_slice(data)?;
    Ok(Ipv4Fields {
        source: h.source(),
        destination: h.destination(),
        protocol: h.protocol().0,
        header_len: h.slice().len(),
        total_len: h.total_len(),
    })
}

/// `etherparse::Ipv6HeaderSlice::from_slice` and the getters of the slice that it
/// returns. Claimed: the header is accepted exactly when its 40 bytes are there
/// and it is of version 6, and each field is read from its place in the header.
#[verifier::external_body]
pub(crate) fn ipv6_header(data: &[u8]) -> (r: Result<
    Ipv6Fields,
    etherparse::err::ipv6::HeaderSliceError,
>)
    ensures
        r is Ok <==> ipv6_header_ok(data@),
        r matches Ok(h) ==> h.source@ == data@.subrange(8, 24),
        r matches Ok(h) ==> h.destination@ == data@.subrange(24, 40),
        r matches Ok(h) ==> h.next_header == data@[6],
        r matches Ok(h) ==> h.payload_length as nat == bytes::be_value(data@.subrange(4, 6)),
{
    let h = Ipv6HeaderSlice::from_slice(data)?;
    Ok(Ipv6Fields {
        source: h.source(),
        destination: h.destination(),
        next_header: h.next_header().0,
        payload_length: h.payload_length(),
    })
}

/// `etherparse::Ipv6ExtensionsSlice::from_slice`. Claimed: the chain of extension
/// headers is accepted exactly when each of its headers is whole and hop-by-hop
/// options stand in front only; then the number and the bytes that come back are
/// those that follow the chain.
#[verifier::external_body]
pub(crate) fn ipv6_extensions<'a>(next_header: u8, payload: &'a [u8]) -> (r: Result<
    (u8, &'a [u8]),
    etherparse::err::ipv6_exts::HeaderSliceError,
>)
    ensures
        behind_ipv6_extensions(next_header, payload@, true) == (match r {
            Ok(found) => Some((found.0, found.1@)),
            Err(_) => None,
        }),
{
    let (_, number, rest) = Ipv6ExtensionsSlice::from_slice(IpNumber(next_header), payload)?;
    Ok((number.0, rest))
}

/// `etherparse::TcpHeaderSlice::from_slice` and the getters of the slice that it
/// returns. Claimed: the header is accepted exactly when it is whole, and each
/// field is read from its place in the header.
#[verifier::external_body]
pub(crate) fn tcp_header(data: &[u8]) -> (r: Result<TcpFields, etherparse::err::tcp::HeaderSliceError>)
    ensures
        r is Ok <==> tcp_header_ok(data@),
        r matches Ok(h) ==> h.source_port as nat == bytes::be_value(data@.subrange(0, 2)),
        r matches Ok(h) ==> h.destination_port as nat == bytes::be_value(data@.subrange(2, 4)),
        r matches Ok(h) ==> h.sequence_number as nat == bytes::be_value(data@.subrange(4, 8)),
        r matches Ok(h) ==> h.acknowledgment_number as nat == bytes::be_value(
            data@.subrange(8, 12),
        ),
        r matches Ok(h) ==> h.flags == flags_of_byte(data@[13]),
        r matches Ok(h) ==> h.window_size as nat == bytes::be_value(data@.subrange(14, 16)),
        r matches Ok(h) ==> h.header_len == 4 * (data@[12] / 16),
{
    let h = TcpHeaderSlice::from_slice(data)?;
    let flags = TcpFlags { syn: h.syn(), ack: h.ack(), fin: h.fin(), rst: h.rst(), psh: h.psh() };
    Ok(TcpFields {
        source_port: h.source_port(),
        destination_port: h.destination_port(),
        sequence_number: h.sequence_number(),
        acknowledgment_number: h.acknowledgment_number(),
        flags,
        window_size: h.window_size(),
        header_len: h.slice().len(),
    })
}

/// `etherparse::UdpHeaderSlice::from_slice` and the getters of the slice that it
/// returns. Claimed: the header is accepted exactly when its 8 bytes are there,
/// and the ports are its first four bytes.
#[verifier::external_body]
pub(crate) fn udp_header(data: &[u8]) -> (r: Result<UdpFields, etherparse::err::LenError>)
    ensures
        r is Ok <==> data@.len() >= 8,
        r matches Ok(h) ==> h.source_port as nat == bytes::be_value(data@.subrange(0, 2)),
        r matches Ok(h) ==> h.destination_port as nat == bytes::be_value(data@.subrange(2, 4)),
{
    let h = UdpHeaderSlice::from_slice(data)?;
    Ok(UdpFields { source_port: h.source_port(), destination_port: h.destination_port() })
}

/// An IPv4 header without options before `body_len` bytes, all of it but the
/// header checksum (bytes 10 and 11).
pub open spec fn ipv4_layout(
    b: Seq<u8>,
    src: Seq<u8>,
    dst: Seq<u8>,
    ttl: u8,
    protocol: u8,
    body_len: nat,
) -> bool {
    &&& b.len() == 20 + body_len
    &&& b.subrange(0, 10) == seq![0x45u8, 0u8] + bytes::be_bytes(20 + body_len, 2)
        + seq![0u8, 0u8, 0x40u8, 0u8, ttl, protocol]
    &&& b.subrange(12, 16) == src
    &&& b.subrange(16, 20) == dst
}

/// An IPv6 header without extensions before `body_len` bytes.
pub open spec fn ipv6_layout(
    b: Seq<u8>,
    src: Seq<u8>,
    dst: Seq<u8>,
    hop_limit: u8,
    next_header: u8,
    body_len: nat,
) -> bool {
    &&& b.len() == 40 + body_len
    &&& b.subrange(0, 8) == seq![0x60u8, 0u8, 0u8, 0u8] + bytes::be_bytes(body_len, 2)
        + seq![next_header, hop_limit]
    &&& b.subrange(8, 24) == src
    &&& b.subrange(24, 40) == dst
}

/// A TCP header without options and its payload, all of it but the checksum
/// (bytes 16 and 17).
pub open spec fn tcp_layout(
    t: Seq<u8>,
    src_port: u16,
    dst_port: u16,
    seq: u32,
    ack: u32,
    flags: TcpFlags,
    window: u16,
    payload: Seq<u8>,
) -> bool {
    &&& t.len() == 20 + payload.len()
    &&& t.subrange(0, 16) == bytes::be_bytes(src_port as nat, 2) + bytes::be_bytes(
        dst_port as nat,
        2,
    ) + bytes::be_bytes(seq as nat, 4) + bytes::be_bytes(ack as nat, 4) + seq![
        0x50u8,
        byte_of_flags(flags),
    ] + bytes::be_bytes(window as nat, 2)
    &&& t.subrange(18, 20) == seq![0u8, 0u8]
    &&& t.skip(20) == payload
}

/// A UDP header and its payload, all of it but the checksum (bytes 6 and 7).
pub open spec fn udp_layout(t: Seq<u8>, src_port: u16, dst_port: u16, payload: Seq<u8>) -> bool {
    &&& t.len() == 8 + payload.len()
    &&& t.subrange(0, 6) == bytes::be_bytes(src_port as nat, 2) + bytes::be_bytes(
        dst_port as nat,
        2,
    ) + bytes::be_bytes(8 + payload.len(), 2)
    &&& t.skip(8) == payload
}

/// The packet that etherparse writes for a TCP segment over IPv4.
pub uninterp spec fn ipv4_tcp_packet(
    src: Seq<u8>,
    dst: Seq<u8>,
    ttl: u8,
    src_port: u16,
    dst_port: u16,
    seq: u32,
    ack: u32,
    flags: TcpFlags,
    window: u16,
    payload: Seq<u8>,
) -> Seq<u8>;

/// The packet that etherparse writes for a TCP segment over IPv6.
pub uninterp spec fn ipv6_tcp_packet(
    src: Seq<u8>,
    dst: Seq<u8>,
    hop_limit: u8,
    src_port: u16,
    dst_port: u16,
    seq: u32,
    ack: u32,
    flags: TcpFlags,
    window: u16,
    payload: Seq<u8>,
) -> Seq<u8>;

/// The packet that etherparse writes for a UDP datagram over IPv4.
pub uninterp spec fn ipv4_udp_packet(
    src: Seq<u8>,
    dst: Seq<u8>,
    ttl: u8,
    src_port: u16,
    dst_port: u16,
    payload: Seq<u8>,
) -> Seq<u8>;

/// The packet that etherparse writes for a UDP datagram over IPv6.
pub uninterp spec fn ipv6_udp_packet(
    src: Seq<u8>,
    dst: Seq<u8>,
    hop_limit: u8,
    src_port: u16,
    dst_port: u16,
    payload: Seq<u8>,
) -> Seq<u8>;

/// `etherparse::PacketBuilder::ipv4`, then `tcp_header` and `write`. Claimed: for
/// a payload that the length field can count, the packet is the one that
/// `ipv4_tcp_packet` names, an IPv4 header and a TCP header with these fields
/// before the payload. The values of the two checksums are left unsaid.
#[verifier::external_body]
pub(crate) fn write_ipv4_tcp(
    src: [u8; 4],
    dst: [u8; 4],
    ttl: u8,
    src_port: u16,
    dst_port: u16,
    seq: u32,
    ack: u32,
    flags: TcpFlags,
    window: u16,
    payload: &[u8],
) -> (out: Vec<u8>)
    requires
        payload@.len() <= 65495,
    ensures
        out@ == ipv4_tcp_packet(
            src@,
            dst@,
            ttl,
            src_port,
            dst_port,
            seq,
            ack,
            flags,
            window,
            payload@,
        ),
        ipv4_layout(out@, src@, dst@, ttl, 6, 20 + payload@.len()),
        tcp_layout(out@.skip(20), src_port, dst_port, seq, ack, flags, window, payload@),
{
    let mut header = TcpHeader::new(src_port, dst_port, seq, window);
    header.acknowledgment_number = ack;
    header.syn = flags.syn;
    header.ack = flags.ack;
    header.fin = flags.fin;
    header.rst = flags.rst;
    header.psh = flags.psh;
    let mut out = Vec::new();
    let builder = PacketBuilder::ipv4(src, dst, ttl).tcp_header(header);
    builder.write(&mut out, payload).expect("Failed to write TCP packet");
    out
}

/// `etherparse::PacketBuilder::ipv6`, then `tcp_header` and `write`. Claimed: for
/// a payload that the length field can count, the packet is the one that
/// `ipv6_tcp_packet` names, an IPv6 header and a TCP header with these fields
/// before the payload. The value of the checksum is left unsaid.
#[verifier::external_body]
pub(crate) fn write_ipv6_tcp(
    src: [u8; 16],
    dst: [u8; 16],
    hop_limit: u8,
    src_port: u16,
    dst_port: u16,
    seq: u32,
    ack: u32,
    flags: TcpFlags,
    window: u16,
    payload: &[u8],
) -> (out: Vec<u8>)
    requires
        payload@.len() <= 65515,
    ensures
        out@ == ipv6_tcp_packet(
            src@,
            dst@,
            hop_limit,
            src_port,
            dst_port,
            seq,
            ack,
            flags,
            window,
            payload@,
        ),
        ipv6_layout(out@, src@, dst@, hop_limit, 6, 20 + payload@.len()),
        tcp_layout(out@.skip(40), src_port, dst_port, seq, ack, flags, window, payload@),
{
    let mut header = TcpHeader::new(src_port, dst_port, seq, window);
    header.acknowledgment_number = ack;
    header.syn = flags.syn;
    header.ack = flags.ack;
    header.fin = flags.fin;
    header.rst = flags.rst;
    header.psh = flags.psh;
    let mut out = Vec::new();
    let builder = PacketBuilder::ipv6(src, dst, hop_limit).tcp_header(header);
    builder.write(&mut out, payload).expect("Failed to write TCP packet");
    out
}

/// `etherparse::PacketBuilder::ipv4`, then `udp` and `write`. Claimed: for a
/// payload that the length field can count, the packet is the one that
/// `ipv4_udp_packet` names, an IPv4 header and a UDP header with these fields
/// before the payload. The values of the two checksums are left unsaid.
#[verifier::external_body]
pub(crate) fn write_ipv4_udp(
    src: [u8; 4],
    dst: [u8; 4],
    ttl: u8,
    src_port: u16,
    dst_port: u16,
    payload: &[u8],
) -> (out: Vec<u8>)
    requires
        payload@.len() <= 65507,
    ensures
        out@ == ipv4_udp_packet(src@, dst@, ttl, src_port, dst_port, payload@),
        ipv4_layout(out@, src@, dst@, ttl, 17, 8 + payload@.len()),
        udp_layout(out@.skip(20), src_port, dst_port, payload@),
{
    let mut out = Vec::new();
    let builder = PacketBuilder::ipv4(src, dst, ttl).udp(src_port, dst_port);
    builder.write(&mut out, payload).expect("Failed to write UDP packet");
    out
}

/// `etherparse::PacketBuilder::ipv6`, then `udp` and `write`. Claimed: for a
/// payload that the length field can count, the packet is the one that
/// `ipv6_udp_packet` names, an IPv6 header and a UDP header with these fields
/// before the payload. The value of the checksum is left unsaid.
#[verifier::external_body]
pub(crate) fn write_ipv6_udp(
    src: [u8; 16],
    dst: [u8; 16],
    hop_limit: u8,
    src_port: u16,
    dst_port: u16,
    payload: &[u8],
) -> (out: Vec<u8>)
    requires
        payload@.len() <= 65527,
    ensures
        out@ == ipv6_udp_packet(src@, dst@, hop_limit, src_port, dst_port, payload@),
        ipv6_layout(out@, src@, dst@, hop_limit, 17, 8 + payload@.len()),
        udp_layout(out@.skip(40), src_port, dst_port, payload@),
{
    let mut out = Vec::new();
    let builder = PacketBuilder::ipv6(src, dst, hop_limit).udp(src_port, dst_port);
    builder.write(&mut out, payload).expect("Failed to write UDP packet");
    out
}

} // verus!
