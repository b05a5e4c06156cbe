//! The messages between host and remote, and the frames that carry them.

use vstd::prelude::*;

use crate::addr::IpAddr;
use crate::bytes;
use crate::packet_laws;

verus! {

/// The longest message body that is read.
pub const MAX_MESSAGE_LEN: usize = 16_777_216;

/// Messages sent from host to remote
#[derive(Debug, Clone)]
pub enum HostMessage {
    /// Request to open a TCP connection
    TcpConnect {
        /// Connection ID for tracking
        id: u32,
        /// Destination IP address
        dst_ip: IpAddr,
        /// Destination port
        dst_port: u16,
    },
    /// Send data on an established TCP connection
    TcpData {
        /// Connection ID
        id: u32,
        /// Data payload
        data: Vec<u8>,
    },
    /// Close a TCP connection
    TcpClose {
        /// Connection ID
        id: u32,
    },
    /// Send a UDP datagram
    UdpDatagram {
        /// Source port (for return routing)
        src_port: u16,
        /// Destination IP address
        dst_ip: IpAddr,
        /// Destination port
        dst_port: u16,
        /// Datagram payload
        data: Vec<u8>,
    },
    /// Forward a DNS query to a specific server
    DnsQuery {
        /// Query ID for tracking
        id: u32,
        /// DNS server to forward to
        server: IpAddr,
        /// Raw DNS query data
        data: Vec<u8>,
    },
    /// Shutdown the remote proxy
    Shutdown,
}

/// Messages sent from remote to host
#[derive(Debug, Clone)]
pub enum RemoteMessage {
    /// TCP connection established
    TcpConnected {
        /// Connection ID
        id: u32,
    },
    /// Data received on TCP connection
    TcpData {
        /// Connection ID
        id: u32,
        /// Data payload
        data: Vec<u8>,
    },
    /// TCP connection closed by remote end
    TcpClosed {
        /// Connection ID
        id: u32,
    },
    /// TCP connection error
    TcpError {
        /// Connection ID
        id: u32,
        /// Error message
        error: String,
    },
    /// UDP response datagram
    UdpResponse {
        /// Destination port on host (original src_port)
        dst_port: u16,
        /// Source IP of the response
        src_ip: IpAddr,
        /// Source port of the response
        src_port: u16,
        /// Response payload
        data: Vec<u8>,
    },
    /// DNS query response
    DnsResponse {
        /// Query ID for tracking
        id: u32,
        /// Raw DNS response data
        data: Vec<u8>,
    },
    /// Remote ready
    Ready,
    /// Remote error
    Error { error: String },
}

/// What a `HostMessage` says.
#[verifier::ext_equal]
pub enum HostMessageView {
    TcpConnect { id: u32, dst_ip: IpAddr, dst_port: u16 },
    TcpData { id: u32, data: Seq<u8> },
    TcpClose { id: u32 },
    UdpDatagram { src_port: u16, dst_ip: IpAddr, dst_port: u16, data: Seq<u8> },
    DnsQuery { id: u32, server: IpAddr, data: Seq<u8> },
    Shutdown,
}

/// What a `RemoteMessage` says.
#[verifier::ext_equal]
pub enum RemoteMessageView {
    TcpConnected { id: u32 },
    TcpData { id: u32, data: Seq<u8> },
    TcpClosed { id: u32 },
    TcpError { id: u32, error: Seq<char> },
    UdpResponse { dst_port: u16, src_ip: IpAddr, src_port: u16, data: Seq<u8> },
    DnsResponse { id: u32, data: Seq<u8> },
    Ready,
    Error { error: Seq<char> },
}

impl View for HostMessage {
    type V = HostMessageView;

    open spec fn view(&self) -> HostMessageView {
        match *self {
            HostMessage::TcpConnect { id, dst_ip, dst_port } => HostMessageView::TcpConnect {
                id,
                dst_ip,
                dst_port,
            },
            HostMessage::TcpData { id, data } => HostMessageView::TcpData { id, data: data@ },
            HostMessage::TcpClose { id } => HostMessageView::TcpClose { id },
            HostMessage::UdpDatagram { src_port, dst_ip, dst_port, data } => {
                HostMessageView::UdpDatagram { src_port, dst_ip, dst_port, data: data@ }
            },
            HostMessage::DnsQuery { id, server, data } => HostMessageView::DnsQuery {
                id,
                server,
                data: data@,
            },
            HostMessage::Shutdown => HostMessageView::Shutdown,
        }
    }
}

impl View for RemoteMessage {
    type V = RemoteMessageView;

    open spec fn view(&self) -> RemoteMessageView {
        match *self {
            RemoteMessage::TcpConnected { id } => RemoteMessageView::TcpConnected { id },
            RemoteMessage::TcpData { id, data } => RemoteMessageView::TcpData { id, data: data@ },
            RemoteMessage::TcpClosed { id } => RemoteMessageView::TcpClosed { id },
            RemoteMessage::TcpError { id, error } => RemoteMessageView::TcpError {
                id,
                error: error@,
            },
            RemoteMessage::UdpResponse { dst_port, src_ip, src_port, data } => {
                RemoteMessageView::UdpResponse { dst_port, src_ip, src_port, data: data@ }
            },
            RemoteMessage::DnsResponse { id, data } => RemoteMessageView::DnsResponse {
                id,
                data: data@,
            },
            RemoteMessage::Ready => RemoteMessageView::Ready,
            RemoteMessage::Error { error } => RemoteMessageView::Error { error: error@ },
        }
    }
}

/// Why no message could be read.
#[derive(Debug, Clone, Copy, PartialEq, Eq, Structural)]
pub enum ProtocolError {
    /// The length prefix asks for more than `MAX_MESSAGE_LEN` bytes.
    TooLarge { len: u32 },
    /// The stream ended inside the message body.
    Truncated,
}

/// The frame of a message body: its length in four bytes, then the body.
///
/// Only the last four bytes of the length fit; a body of 4 GiB or more is not
/// framed faithfully.
pub open spec fn frame(body: Seq<u8>) -> Seq<u8> {
    bytes::be_bytes(body.len() % 0x1_0000_0000, 4) + body
}

/// The length that the first four bytes of a stream announce.
pub open spec fn announced_len(stream: Seq<u8>) -> nat {
    bytes::be_value(stream.take(4))
}

/// What the bytes of a stream, up to its end, hold as their first message: none
/// if the stream ends before a length is there, else the body.
pub open spec fn first_message(stream: Seq<u8>) -> Result<Option<Seq<u8>>, ProtocolError> {
    if stream.len() < 4 {
        Ok(None)
    } else if announced_len(stream) > MAX_MESSAGE_LEN {
        Err(ProtocolError::TooLarge { len: announced_len(stream) as u32 })
    } else if stream.len() < 4 + announced_len(stream) {
        Err(ProtocolError::Truncated)
    } else {
        Ok(Some(stream.subrange(4, 4 + announced_len(stream) as int)))
    }
}

/// Frames a message body: a 4-byte length prefix, then the body.
pub fn write_message(body: &[u8]) -> (out: Vec<u8>)
    ensures
        out@ == frame(body@),
{
    let len: u32 = (body.len() as u64 % 0x1_0000_0000) as u32;
    let prefix: [u8; 4] = bytes::write_be4(len);
    let mut out: Vec<u8> = Vec::new();
    out.extend_from_slice(&prefix);
    out.extend_from_slice(body);
    proof {
        assert(out@ =~= prefix@ + body@);
    }
    out
}

/// The length of the body that a length prefix announces, or an error if it is
/// too large.
pub fn message_len(prefix: [u8; 4]) -> (r: Result<usize, ProtocolError>)
    ensures
        bytes::be_value(prefix@) <= MAX_MESSAGE_LEN ==> (r matches Ok(len) && len as nat
            == bytes::be_value(prefix@)),
        bytes::be_value(prefix@) > MAX_MESSAGE_LEN ==> (r matches Err(e) && e
            == ProtocolError::TooLarge { len: bytes::be_value(prefix@) as u32 }),
{
    proof {
        bytes::lemma_be_value_bound(prefix@);
        bytes::lemma_byte_ranges();
    }
    let prefix_ref: &[u8] = &prefix;
    let len: u32 = bytes::read_be(prefix_ref) as u32;
    if len > MAX_MESSAGE_LEN as u32 {
        Err(ProtocolError::TooLarge { len })
    } else {
        Ok(len as usize)
    }
}

/// Reads the body of the first message of a stream, of which all bytes up to its
/// end are given, or all that the message takes.
///
/// A stream that ends before a whole length prefix holds no message.
pub fn read_message(stream: &[u8]) -> (r: Result<Option<Vec<u8>>, ProtocolError>)
    ensures
        first_message(stream@) == (match r {
            Ok(Some(body)) => Ok(Some(body@)),
            Ok(None) => Ok(None),
            Err(e) => Err(e),
        }),
{
    if stream.len() < 4 {
        return Ok(None);
    }
    let prefix: [u8; 4] = [stream[0], stream[1], stream[2], stream[3]];
    assert(prefix@ =~= stream@.take(4));
    let len: usize = match message_len(prefix) {
        Ok(len) => len,
        Err(e) => return Err(e),
    };
    if stream.len() < 4 + len {
        return Err(ProtocolError::Truncated);
    }
    let body: Vec<u8> = vstd::slice::slice_to_vec(
        vstd::slice::slice_subrange(stream, 4, 4 + len),
    );
    Ok(Some(body))
}

/// A message that was framed is read back, whatever follows it in the stream.
pub proof fn law_framed_message_is_read_back(body: Seq<u8>, rest: Seq<u8>)
    requires
        body.len() <= MAX_MESSAGE_LEN,
    ensures
        first_message(frame(body) + rest) == Ok::<Option<Seq<u8>>, ProtocolError>(Some(body)),
{
    let stream = frame(body) + rest;
    bytes::lemma_be_bytes_len(body.len(), 4);
    bytes::lemma_byte_ranges();
    bytes::lemma_read_written(body.len(), 4);
    assert(stream.take(4) =~= bytes::be_bytes(body.len(), 4));
    assert(stream.subrange(4, 4 + body.len() as int) =~= body);
}

/// A message that is too large to be read is refused, whatever follows it in the
/// stream.
pub proof fn law_oversized_message_is_refused(body: Seq<u8>, rest: Seq<u8>)
    requires
        MAX_MESSAGE_LEN < body.len() < 0x1_0000_0000,
    ensures
        first_message(frame(body) + rest) == Err::<Option<Seq<u8>>, ProtocolError>(
            ProtocolError::TooLarge { len: body.len() as u32 },
        ),
{
    let stream = frame(body) + rest;
    bytes::lemma_be_bytes_len(body.len(), 4);
    bytes::lemma_byte_ranges();
    bytes::lemma_read_written(body.len(), 4);
    assert(stream.take(4) =~= bytes::be_bytes(body.len(), 4));
}

/// How much of the stream the first message takes does not depend on what follows
/// it: more bytes at the end change nothing once the message is there.
pub proof fn law_first_message_ignores_the_rest(stream: Seq<u8>, rest: Seq<u8>)
    requires
        first_message(stream) matches Ok(Some(_)),
    ensures
        first_message(stream + rest) == first_message(stream),
{
    assert((stream + rest).take(4) =~= stream.take(4));
    let end = 4 + announced_len(stream) as int;
    assert((stream + rest).subrange(4, end) =~= stream.subrange(4, end));
}

/// Message bodies framed one after the other.
pub open spec fn frames(bodies: Seq<Seq<u8>>) -> Seq<u8>
    decreases bodies.len(),
{
    if bodies.len() == 0 {
        seq![]
    } else {
        frame(bodies[0]) + frames(bodies.skip(1))
    }
}

/// Message bodies that are framed one after the other are read one after the other:
/// behind the first `i` frames stands body `i`, and behind the last one the stream is
/// at its end.
pub proof fn law_messages_follow_each_other(bodies: Seq<Seq<u8>>, i: int)
    requires
        forall|k: int| 0 <= k < bodies.len() ==> (#[trigger] bodies[k]).len() <= MAX_MESSAGE_LEN,
        0 <= i <= bodies.len(),
    ensures
        ({
            let rest = frames(bodies).skip(frames(bodies.take(i)).len() as int);
            first_message(rest) == Ok::<Option<Seq<u8>>, ProtocolError>(
                if i < bodies.len() {
                    Some(bodies[i])
                } else {
                    None
                },
            )
        }),
{
    let behind = bodies.skip(i);
    lemma_frames_split(bodies, i);
    lemma_behind_the_first(frames(bodies.take(i)), frames(behind));
    if i < bodies.len() {
        assert(behind[0] == bodies[i]);
        law_framed_message_is_read_back(bodies[i], frames(behind.skip(1)));
    }
}

proof fn lemma_frames_split(bodies: Seq<Seq<u8>>, i: int)
    requires
        0 <= i <= bodies.len(),
    ensures
        frames(bodies) == frames(bodies.take(i)) + frames(bodies.skip(i)),
    decreases bodies.len(),
{
    if i == 0 {
        assert(bodies.skip(0) =~= bodies);
        assert(bodies.take(0) =~= Seq::<Seq<u8>>::empty());
        assert(frames(bodies) =~= Seq::<u8>::empty() + frames(bodies));
    } else {
        lemma_frames_split(bodies.skip(1), i - 1);
        assert(bodies.take(i).skip(1) =~= bodies.skip(1).take(i - 1));
        assert(bodies.skip(i) =~= bodies.skip(1).skip(i - 1));
        lemma_assoc(
            frame(bodies[0]),
            frames(bodies.skip(1).take(i - 1)),
            frames(bodies.skip(i)),
        );
    }
}

proof fn lemma_assoc(a: Seq<u8>, b: Seq<u8>, c: Seq<u8>)
    ensures
        a + (b + c) == (a + b) + c,
{
    assert(a + (b + c) =~= (a + b) + c);
}

/// Behind the first of two sequences stands the second.
proof fn lemma_behind_the_first(a: Seq<u8>, b: Seq<u8>)
    ensures
        (a + b).skip(a.len() as int) == b,
{
    assert((a + b).skip(a.len() as int) =~= b);
}

/// A frame is four bytes longer than its body: they hold the length of the body, each
/// byte counting 256 times the next one, and the body follows as it is.
pub proof fn law_how_a_frame_is_made(body: Seq<u8>)
    requires
        body.len() < 0x1_0000_0000,
    ensures
        frame(body).len() == 4 + body.len(),
        frame(body)[0] * 0x100_0000 + frame(body)[1] * 0x1_0000 + frame(body)[2] * 0x100 + frame(
            body,
        )[3] == body.len(),
        frame(body).skip(4) == body,
{
    bytes::lemma_be_bytes_len(body.len(), 4);
    bytes::lemma_byte_ranges();
    bytes::lemma_read_written(body.len(), 4);
    assert(frame(body).skip(4) =~= body);
    assert(frame(body).subrange(0, 4) =~= bytes::be_bytes(body.len(), 4));
    packet_laws::law_four_bytes(frame(body), 0);
}

/// The first four bytes of a stream decide: up to 16 MiB, as many bytes as they count
/// follow them and are the message, or else the stream was cut off; a larger message is
/// refused. A stream of fewer than four bytes holds no message.
pub proof fn law_how_a_stream_is_read(stream: Seq<u8>)
    ensures
        stream.len() < 4 ==> first_message(stream) == Ok::<Option<Seq<u8>>, ProtocolError>(None),
        stream.len() >= 4 ==> ({
            let n = stream[0] * 0x100_0000 + stream[1] * 0x1_0000 + stream[2] * 0x100 + stream[3];
            if n > 16_777_216 {
                first_message(stream) == Err::<Option<Seq<u8>>, ProtocolError>(
                    ProtocolError::TooLarge { len: n as u32 },
                )
            } else if stream.len() < 4 + n {
                first_message(stream) == Err::<Option<Seq<u8>>, ProtocolError>(
                    ProtocolError::Truncated,
                )
            } else {
                first_message(stream) == Ok::<Option<Seq<u8>>, ProtocolError>(
                    Some(stream.subrange(4, 4 + n)),
                )
            }
        }),
{
    if stream.len() >= 4 {
        assert(stream.take(4) =~= stream.subrange(0, 4));
        packet_laws::law_four_bytes(stream, 0);
    }
}

/// A frame that is cut off holds no message: within the length it is as if the stream
/// had ended, behind it that is an error.
pub proof fn law_a_frame_that_is_cut_off(body: Seq<u8>, n: int)
    requires
        body.len() <= 16_777_216,
        0 <= n < frame(body).len(),
    ensures
        n < 4 ==> first_message(frame(body).take(n)) == Ok::<Option<Seq<u8>>, ProtocolError>(None),
        n >= 4 ==> first_message(frame(body).take(n)) == Err::<Option<Seq<u8>>, ProtocolError>(
            ProtocolError::Truncated,
        ),
{
    law_how_a_frame_is_made(body);
    law_how_a_stream_is_read(frame(body).take(n));
}

} // verus!
