//! What the host does with a packet from the TUN interface and with a message
//! from the remote.

use vstd::prelude::*;

use crate::addr::{IpAddr, SocketAddr};
use crate::host::dns::{DnsState, DnsView};
use crate::host::nat_table;
use crate::host::nat_table::{ConnectionState, NatTable, NatView, TcpKey, UdpReturnKey};
use crate::packet;
use crate::packet::{
    parse_ip_packet, PacketError, PacketFault, PacketView,
    ParsedPacket, TcpFlags, TcpPacketInfo, TcpPacketView, UdpPacketInfo, UdpPacketView,
};
use crate::protocol::{HostMessage, HostMessageView, RemoteMessage, RemoteMessageView};

verus! {

/// The window that is announced to the application.
pub const WINDOW: u16 = 65535;

/// What the host does.
#[derive(Debug)]
pub enum HostAction {
    /// Send a message to the remote.
    ToRemote(HostMessage),
    /// Write a TCP segment to the TUN interface.
    TcpToTun(TcpPacketInfo),
    /// Write a UDP datagram to the TUN interface.
    UdpToTun(UdpPacketInfo),
    /// Send a DNS answer to a local client.
    DnsReply { client: SocketAddr, data: Vec<u8> },
}

/// What a `HostAction` says.
#[verifier::ext_equal]
pub enum HostActionView {
    ToRemote(HostMessageView),
    TcpToTun(TcpPacketView),
    UdpToTun(UdpPacketView),
    DnsReply { client: SocketAddr, data: Seq<u8> },
}

impl View for HostAction {
    type V = HostActionView;

    open spec fn view(&self) -> HostActionView {
        match *self {
            HostAction::ToRemote(msg) => HostActionView::ToRemote(msg@),
            HostAction::TcpToTun(tcp) => HostActionView::TcpToTun(tcp@),
            HostAction::UdpToTun(udp) => HostActionView::UdpToTun(udp@),
            HostAction::DnsReply { client, data } => HostActionView::DnsReply {
                client,
                data: data@,
            },
        }
    }
}

/// What a list of actions says.
pub open spec fn said(actions: Seq<HostAction>) -> Seq<HostActionView> {
    actions.map_values(|action: HostAction| action@)
}

impl HostActionView {
    /// Whether the packet that the action writes, if any, can be built.
    pub open spec fn buildable(self) -> bool {
        match self {
            HostActionView::TcpToTun(tcp) => tcp.buildable(),
            HostActionView::UdpToTun(udp) => udp.buildable(),
            _ => true,
        }
    }
}

/// What leaves the host when an action is carried out.
#[derive(Debug)]
pub enum HostOutput {
    /// A message for the remote.
    ToRemote(HostMessage),
    /// A packet for the TUN interface.
    ToTun(Vec<u8>),
    /// A DNS answer for a local client.
    DnsReply { client: SocketAddr, data: Vec<u8> },
}

impl HostAction {
    /// Whether the packet that the action writes, if any, can be built.
    pub fn is_buildable(&self) -> (r: bool)
        ensures
            r == self@.buildable(),
    {
        match self {
            HostAction::TcpToTun(tcp) => tcp.is_buildable(),
            HostAction::UdpToTun(udp) => udp.is_buildable(),
            _ => true,
        }
    }

    /// Carry out the action: build the packet that it writes, if any.
    pub fn into_output(self) -> (out: HostOutput)
        requires
            self@.buildable(),
        ensures
            match self@ {
                HostActionView::ToRemote(msg) => out matches HostOutput::ToRemote(m) && m@ == msg,
                HostActionView::TcpToTun(tcp) => out matches HostOutput::ToTun(data) && data@
                    == tcp.wire_bytes() && packet::packet_says(data@) == Ok::<
                    PacketView,
                    PacketFault,
                >(PacketView::Tcp(tcp.as_sent())),
                HostActionView::UdpToTun(udp) => out matches HostOutput::ToTun(data) && data@
                    == udp.wire_bytes() && packet::packet_says(data@) == Ok::<
                    PacketView,
                    PacketFault,
                >(PacketView::Udp(udp)),
                HostActionView::DnsReply { client, data } => out matches HostOutput::DnsReply {
                    client: c,
                    data: d,
                } && c == client && d@ == data,
            },
    {
        match self {
            HostAction::ToRemote(msg) => HostOutput::ToRemote(msg),
            HostAction::TcpToTun(tcp) => HostOutput::ToTun(tcp.to_packet()),
            HostAction::UdpToTun(udp) => HostOutput::ToTun(udp.to_packet()),
            HostAction::DnsReply { client, data } => HostOutput::DnsReply { client, data },
        }
    }
}

/// The NAT table after an event, and the actions that it calls for, in order.
#[verifier::ext_equal]
pub struct HostStep {
    pub table: NatView,
    pub actions: Seq<HostActionView>,
}

/// The step that changes nothing and does nothing.
pub open spec fn ignored(table: NatView) -> HostStep {
    HostStep { table, actions: seq![] }
}

/// The key of the connection that a segment from the application belongs to.
pub open spec fn key_of(tcp: TcpPacketView) -> TcpKey {
    (tcp.src_ip, tcp.src_port, tcp.dst_ip, tcp.dst_port)
}

/// A segment to the application: source and destination of the connection change
/// places.
pub open spec fn to_app(
    key: TcpKey,
    seq: u32,
    ack: u32,
    flags: TcpFlags,
    window: u16,
    payload: Seq<u8>,
) -> TcpPacketView {
    TcpPacketView {
        src_ip: key.2,
        dst_ip: key.0,
        src_port: key.3,
        dst_port: key.1,
        seq,
        ack,
        flags,
        window,
        payload,
    }
}

/// A segment to the application on the connection that an ID leads to, with the
/// numbers that the table holds for it.
pub open spec fn numbered(
    table: NatView,
    id: u32,
    key: TcpKey,
    flags: TcpFlags,
    payload: Seq<u8>,
) -> HostActionView {
    HostActionView::TcpToTun(to_app(key, table.seq(id), table.ack(id), flags, WINDOW, payload))
}

/// The flags of a bare acknowledgment.
pub open spec fn flags_ack() -> TcpFlags {
    TcpFlags { ack: true, ..TcpFlags::none() }
}

/// The flags of a SYN-ACK.
pub open spec fn flags_syn_ack() -> TcpFlags {
    TcpFlags { syn: true, ack: true, ..TcpFlags::none() }
}

/// The flags of a segment with data.
pub open spec fn flags_psh_ack() -> TcpFlags {
    TcpFlags { ack: true, psh: true, ..TcpFlags::none() }
}

/// The flags of a FIN that acknowledges.
pub open spec fn flags_fin_ack() -> TcpFlags {
    TcpFlags { fin: true, ack: true, ..TcpFlags::none() }
}

/// The flags of a reset.
pub open spec fn flags_rst() -> TcpFlags {
    TcpFlags { rst: true, ..TcpFlags::none() }
}

/// The data that goes to the remote, if there is any.
pub open spec fn data_to_remote(id: u32, data: Seq<u8>) -> Seq<HostActionView> {
    if data.len() == 0 {
        seq![]
    } else {
        seq![HostActionView::ToRemote(HostMessageView::TcpData { id, data })]
    }
}

/// The close request to the remote.
pub open spec fn close_to_remote(id: u32) -> HostActionView {
    HostActionView::ToRemote(HostMessageView::TcpClose { id })
}

/// A SYN from the application opens a connection.
pub open spec fn opened(table: NatView, tcp: TcpPacketView) -> HostStep {
    HostStep {
        table: table.create(key_of(tcp), tcp.seq),
        actions: seq![
            HostActionView::ToRemote(
                HostMessageView::TcpConnect {
                    id: table.next_id,
                    dst_ip: tcp.dst_ip,
                    dst_port: tcp.dst_port,
                },
            ),
        ],
    }
}

/// A RST from the application ends its connection, whatever its state.
pub open spec fn reset_by_app(table: NatView, key: TcpKey) -> HostStep {
    HostStep { table: table.close(key), actions: seq![close_to_remote(table.flows[key].id)] }
}

/// The application closes first: its data is passed on, its FIN is acknowledged,
/// and the remote is told to close.
pub open spec fn closed_by_app(table: NatView, tcp: TcpPacketView) -> HostStep {
    let key = key_of(tcp);
    let id = table.flows[key].id;
    let acked = table.update_ack(id, nat_table::wrap_add(tcp.seq, tcp.payload.len() as int + 1));
    HostStep {
        table: acked.set_state(key, ConnectionState::FinWait),
        actions: data_to_remote(id, tcp.payload) + seq![
            numbered(acked, id, key, flags_ack(), seq![]),
            close_to_remote(id),
        ],
    }
}

/// Data from the application is passed on and counted.
pub open spec fn data_from_app(table: NatView, tcp: TcpPacketView) -> HostStep {
    let id = table.flows[key_of(tcp)].id;
    if tcp.payload.len() == 0 {
        ignored(table)
    } else {
        HostStep {
            table: table.update_ack(id, nat_table::wrap_add(tcp.seq, tcp.payload.len() as int)),
            actions: data_to_remote(id, tcp.payload),
        }
    }
}

/// The application closes after the remote: its FIN is acknowledged, and the
/// connection is over.
pub open spec fn closed_by_app_too(table: NatView, tcp: TcpPacketView) -> HostStep {
    let key = key_of(tcp);
    let id = table.flows[key].id;
    let acked = table.update_ack(id, nat_table::wrap_add(tcp.seq, 1));
    HostStep {
        table: acked.close(key),
        actions: seq![numbered(acked, id, key, flags_ack(), seq![])],
    }
}

/// What a TCP segment from the application calls for.
pub open spec fn outbound_tcp(table: NatView, tcp: TcpPacketView) -> HostStep {
    let key = key_of(tcp);
    if tcp.flags.syn && !tcp.flags.ack {
        opened(table, tcp)
    } else if !table.flows.contains_key(key) {
        ignored(table)
    } else if tcp.flags.rst {
        reset_by_app(table, key)
    } else {
        match table.flows[key].state {
            ConnectionState::Established => if tcp.flags.fin {
                closed_by_app(table, tcp)
            } else {
                data_from_app(table, tcp)
            },
            ConnectionState::CloseWait => if tcp.flags.fin {
                closed_by_app_too(table, tcp)
            } else {
                ignored(table)
            },
            ConnectionState::LastAck => if tcp.flags.ack {
                HostStep { table: table.close(key), actions: seq![] }
            } else {
                ignored(table)
            },
            ConnectionState::FinWait | ConnectionState::SynSent | ConnectionState::Closed => {
                ignored(table)
            },
        }
    }
}

/// What a UDP datagram from the application calls for, seen at `seen`, with stale
/// mappings removed at `now`.
pub open spec fn outbound_udp(table: NatView, udp: UdpPacketView, seen: u128, now: u128) -> HostStep {
    HostStep {
        table: table.track_udp(udp.src_ip, udp.src_port, udp.dst_ip, udp.dst_port, seen, now),
        actions: seq![
            HostActionView::ToRemote(
                HostMessageView::UdpDatagram {
                    src_port: udp.src_port,
                    dst_ip: udp.dst_ip,
                    dst_port: udp.dst_port,
                    data: udp.payload,
                },
            ),
        ],
    }
}

/// What a packet from the TUN interface calls for.
pub open spec fn tun_packet(table: NatView, data: Seq<u8>, seen: u128, now: u128) -> Result<
    HostStep,
    PacketFault,
> {
    match packet::packet_says(data) {
        Err(fault) => Err(fault),
        Ok(PacketView::Tcp(tcp)) => Ok(outbound_tcp(table, tcp)),
        Ok(PacketView::Udp(udp)) => Ok(outbound_udp(table, udp, seen, now)),
        Ok(PacketView::Other { .. }) => Ok(ignored(table)),
    }
}

/// The remote has connected: the application gets its SYN-ACK, which uses up one
/// sequence number.
pub open spec fn connected(table: NatView, id: u32) -> HostStep {
    let key = table.ids[id];
    let open = table.set_state(key, ConnectionState::Established);
    HostStep {
        table: open.advance_seq(id, 1),
        actions: seq![numbered(open, id, key, flags_syn_ack(), seq![])],
    }
}

/// Data from the remote goes to the application.
pub open spec fn data_from_remote(table: NatView, id: u32, data: Seq<u8>) -> HostStep {
    HostStep {
        table: table.advance_seq(id, data.len() as int),
        actions: seq![numbered(table, id, table.ids[id], flags_psh_ack(), data)],
    }
}

/// The remote has closed: the application gets a FIN, which uses up one sequence
/// number, if it has not had one.
pub open spec fn closed_by_remote(table: NatView, id: u32) -> HostStep {
    let key = table.ids[id];
    let fin = seq![numbered(table, id, key, flags_fin_ack(), seq![])];
    match table.state(key) {
        Some(ConnectionState::Established) => HostStep {
            table: table.advance_seq(id, 1).set_state(key, ConnectionState::CloseWait),
            actions: fin,
        },
        Some(ConnectionState::FinWait) => HostStep {
            table: table.advance_seq(id, 1).set_state(key, ConnectionState::LastAck),
            actions: fin,
        },
        _ => HostStep { table: table.close(key), actions: seq![] },
    }
}

/// The connection failed at the remote: the application gets a RST.
pub open spec fn failed_at_remote(table: NatView, id: u32) -> HostStep {
    let key = table.ids[id];
    HostStep {
        table: table.close(key),
        actions: seq![HostActionView::TcpToTun(to_app(key, 0, 0, flags_rst(), 0, seq![]))],
    }
}

/// A datagram from the remote goes to the application that sent to its source, if
/// that is known.
pub open spec fn udp_from_remote(
    table: NatView,
    dst_port: u16,
    src_ip: IpAddr,
    src_port: u16,
    data: Seq<u8>,
) -> HostStep {
    match table.udp.get((dst_port, src_ip, src_port)) {
        Some(mapping) => HostStep {
            table,
            actions: seq![
                HostActionView::UdpToTun(
                    UdpPacketView {
                        src_ip,
                        dst_ip: mapping.src_ip,
                        src_port,
                        dst_port,
                        payload: data,
                    },
                ),
            ],
        },
        None => ignored(table),
    }
}

/// A DNS answer goes to the client that waits for it, if there is one.
pub open spec fn dns_from_remote(table: NatView, dns: Option<DnsView>, id: u32, data: Seq<u8>) -> HostStep {
    match dns {
        Some(state) => match state.pending.get(id) {
            Some(client) => HostStep {
                table,
                actions: seq![HostActionView::DnsReply { client, data }],
            },
            None => ignored(table),
        },
        None => ignored(table),
    }
}

/// What a message from the remote calls for.
pub open spec fn remote_message(table: NatView, dns: Option<DnsView>, msg: RemoteMessageView) -> HostStep {
    match msg {
        RemoteMessageView::TcpConnected { id } => if table.ids.contains_key(id) {
            connected(table, id)
        } else {
            ignored(table)
        },
        RemoteMessageView::TcpData { id, data } => if table.ids.contains_key(id) {
            data_from_remote(table, id, data)
        } else {
            ignored(table)
        },
        RemoteMessageView::TcpClosed { id } => if table.ids.contains_key(id) {
            closed_by_remote(table, id)
        } else {
            ignored(table)
        },
        RemoteMessageView::TcpError { id, .. } => if table.ids.contains_key(id) {
            failed_at_remote(table, id)
        } else {
            ignored(table)
        },
        RemoteMessageView::UdpResponse { dst_port, src_ip, src_port, data } => udp_from_remote(
            table,
            dst_port,
            src_ip,
            src_port,
            data,
        ),
        RemoteMessageView::DnsResponse { id, data } => dns_from_remote(table, dns, id, data),
        RemoteMessageView::Ready => ignored(table),
        RemoteMessageView::Error { .. } => ignored(table),
    }
}

/// The pending DNS queries after a message from the remote: an answered one is
/// pending no more.
pub open spec fn dns_after(dns: Option<DnsView>, msg: RemoteMessageView) -> Option<DnsView> {
    match (dns, msg) {
        (Some(state), RemoteMessageView::DnsResponse { id, .. }) => Some(state.forget(id)),
        _ => dns,
    }
}

/// The view of an optional DNS state.
pub open spec fn dns_view(dns: Option<DnsState>) -> Option<DnsView> {
    match dns {
        Some(state) => Some(state@),
        None => None,
    }
}

/// A segment to the application on the connection that an ID leads to, with the
/// numbers that the table holds for it.
fn numbered_segment(
    table: &NatTable,
    id: u32,
    key: TcpKey,
    flags: TcpFlags,
    payload: Vec<u8>,
) -> (r: HostAction)
    ensures
        r@ == numbered(table@, id, key, flags, payload@),
{
    HostAction::TcpToTun(
        TcpPacketInfo {
            src_ip: key.2,  // dst_ip becomes src
            dst_ip: key.0,  // src_ip becomes dst
            src_port: key.3,  // dst_port becomes src
            dst_port: key.1,  // src_port becomes dst
            seq: table.get_tcp_seq(id),
            ack: table.get_tcp_ack(id),
            flags,
            window: WINDOW,
            payload,
        },
    )
}

/// A length as the sequence numbers that it uses up.
fn seq_len(len: usize) -> (r: u32)
    ensures
        r as int == len as int % 0x1_0000_0000,
{
    (len as u64 % 0x1_0000_0000) as u32
}

/// What a TCP segment from the application calls for.
pub fn handle_outbound_tcp(tcp: TcpPacketInfo, table: &mut NatTable) -> (actions: Vec<HostAction>)
    ensures
        (HostStep { table: final(table)@, actions: said(actions@) }) == outbound_tcp(old(table)@, tcp@),
{
    let key: TcpKey = (tcp.src_ip, tcp.src_port, tcp.dst_ip, tcp.dst_port);
    let mut actions: Vec<HostAction> = Vec::new();
    if tcp.flags.syn && !tcp.flags.ack {
        // New connection - SYN packet
        let id: u32 = table.create_tcp_connection(key, tcp.seq);
        actions.push(
            HostAction::ToRemote(
                HostMessage::TcpConnect { id, dst_ip: tcp.dst_ip, dst_port: tcp.dst_port },
            ),
        );
        return actions;
    }
    let id: u32 = match table.get_tcp_connection_id(&key) {
        Some(id) => id,
        // Ignore packets for unknown connections (e.g. stale ACKs after close)
        None => return actions,
    };
    // RST always immediately closes regardless of state
    if tcp.flags.rst {
        table.close_tcp_connection(&key);
        actions.push(HostAction::ToRemote(HostMessage::TcpClose { id }));
        return actions;
    }
    match table.get_tcp_state(&key) {
        Some(ConnectionState::Established) => {
            let len: u32 = seq_len(tcp.payload.len());
            if tcp.flags.fin {
                // App initiates close. ACK the FIN (FIN consumes 1 seq number, plus
                // any payload)
                let fin_ack: u32 = tcp.seq.wrapping_add(len).wrapping_add(1);
                table.update_tcp_ack(id, fin_ack);
                // Forward any piggybacked data
                if tcp.payload.len() > 0 {
                    actions.push(
                        HostAction::ToRemote(HostMessage::TcpData { id, data: tcp.payload }),
                    );
                }
                // Send ACK for the FIN back to app
                actions.push(
                    numbered_segment(
                        table,
                        id,
                        key,
                        TcpFlags { ack: true, ..Default::default() },
                        Vec::new(),
                    ),
                );
                // Tell remote to close
                actions.push(HostAction::ToRemote(HostMessage::TcpClose { id }));
                table.set_tcp_state(&key, ConnectionState::FinWait);
            } else if tcp.payload.len() > 0 {
                // Normal data
                table.update_tcp_ack(id, tcp.seq.wrapping_add(len));
                actions.push(HostAction::ToRemote(HostMessage::TcpData { id, data: tcp.payload }));
            }
            // Bare ACKs in Established state are normal (acking our data), ignore
        },
        Some(ConnectionState::CloseWait) => {
            // Remote already closed, we sent FIN to app, waiting for app's FIN
            if tcp.flags.fin {
                // ACK the app's FIN
                table.update_tcp_ack(id, tcp.seq.wrapping_add(1));
                actions.push(
                    numbered_segment(
                        table,
                        id,
                        key,
                        TcpFlags { ack: true, ..Default::default() },
                        Vec::new(),
                    ),
                );
                // Both sides have FIN'd, fully closed
                table.close_tcp_connection(&key);
            }
            // Bare ACKs (acking our FIN) are expected, no action needed
        },
        Some(ConnectionState::LastAck) => {
            // App already FIN'd, we sent FIN after remote closed, waiting for app's ACK
            if tcp.flags.ack {
                table.close_tcp_connection(&key);
            }
        },
        // Waiting for the remote to close or to connect: ignore app packets
        _ => {},
    }
    actions
}

/// The key under which the answers to a datagram come back.
pub open spec fn return_key(udp: UdpPacketView) -> UdpReturnKey {
    (udp.src_port, udp.dst_ip, udp.dst_port)
}

/// Whether an answer to a datagram goes back to the application that sent it.
pub open spec fn answer_returns(table: NatView, udp: UdpPacketView) -> bool {
    table.returns_to(return_key(udp), udp.src_ip)
}

/// What a UDP datagram from the application calls for. Whatever the clock says, an
/// answer to the datagram finds its way back.
pub fn handle_outbound_udp(udp: UdpPacketInfo, table: &mut NatTable) -> (actions: Vec<HostAction>)
    ensures
        exists|now: u128|
            (HostStep { table: final(table)@, actions: said(actions@) })
                == #[trigger] outbound_udp(old(table)@, udp@, now, now),
        answer_returns(final(table)@, udp@),
{
    let ghost before = table@;
    // Track UDP "connection" for return path
    table.track_udp(udp.src_ip, udp.src_port, udp.dst_ip, udp.dst_port);
    let ghost now = choose|now: u128|
        table@ == #[trigger] before.track_udp(
            udp.src_ip,
            udp.src_port,
            udp.dst_ip,
            udp.dst_port,
            now,
            now,
        );
    let actions: Vec<HostAction> = datagram_to_remote(udp);
    proof {
        let step = outbound_udp(before, udp@, now, now);
        assert(step.table == table@);
        assert(step.actions == said(actions@));
    }
    actions
}

/// What a UDP datagram from the application calls for, seen at `seen`, with stale
/// mappings removed at `now`.
pub fn handle_outbound_udp_at(
    udp: UdpPacketInfo,
    table: &mut NatTable,
    seen: u128,
    now: u128,
) -> (actions: Vec<HostAction>)
    ensures
        (HostStep { table: final(table)@, actions: said(actions@) }) == outbound_udp(
            old(table)@,
            udp@,
            seen,
            now,
        ),
{
    table.track_udp_at(udp.src_ip, udp.src_port, udp.dst_ip, udp.dst_port, seen, now);
    datagram_to_remote(udp)
}

fn datagram_to_remote(udp: UdpPacketInfo) -> (actions: Vec<HostAction>)
    ensures
        said(actions@) == seq![
            HostActionView::ToRemote(
                HostMessageView::UdpDatagram {
                    src_port: udp.src_port,
                    dst_ip: udp.dst_ip,
                    dst_port: udp.dst_port,
                    data: udp.payload@,
                },
            ),
        ],
{
    let mut actions: Vec<HostAction> = Vec::new();
    actions.push(
        HostAction::ToRemote(
            HostMessage::UdpDatagram {
                src_port: udp.src_port,
                dst_ip: udp.dst_ip,
                dst_port: udp.dst_port,
                data: udp.payload,
            },
        ),
    );
    actions
}

/// What a packet from the TUN interface calls for. A packet that cannot be parsed
/// leaves the table as it is. Whatever the clock says, an answer to a datagram finds
/// its way back.
pub fn handle_tun_packet(packet_data: &[u8], table: &mut NatTable) -> (r: Result<
    Vec<HostAction>,
    PacketError,
>)
    requires
        packet::lengths_agree(packet_data@),
    ensures
        exists|now: u128|
            match #[trigger] tun_packet(old(table)@, packet_data@, now, now) {
                Ok(step) => (r matches Ok(actions) && (HostStep {
                    table: final(table)@,
                    actions: said(actions@),
                }) == step),
                Err(fault) => (r matches Err(e) && e@ == fault && final(table)@ == old(table)@),
            },
        packet::packet_says(packet_data@) matches Ok(PacketView::Udp(udp)) ==> answer_returns(
            final(table)@,
            udp,
        ),
{
    let ghost before = table@;
    match parse_ip_packet(packet_data) {
        Err(e) => {
            assert(tun_packet(before, packet_data@, 0, 0) == Err::<HostStep, PacketFault>(e@));
            Err(e)
        },
        Ok(ParsedPacket::Tcp(tcp)) => {
            let actions: Vec<HostAction> = handle_outbound_tcp(tcp, table);
            assert(tun_packet(before, packet_data@, 0, 0) == Ok::<HostStep, PacketFault>(
                HostStep { table: table@, actions: said(actions@) },
            ));
            Ok(actions)
        },
        Ok(ParsedPacket::Udp(udp)) => {
            let actions: Vec<HostAction> = handle_outbound_udp(udp, table);
            proof {
                let now = choose|now: u128|
                    (HostStep { table: table@, actions: said(actions@) })
                        == #[trigger] outbound_udp(before, udp@, now, now);
                assert(tun_packet(before, packet_data@, now, now) == Ok::<HostStep, PacketFault>(
                    HostStep { table: table@, actions: said(actions@) },
                ));
            }
            Ok(actions)
        },
        Ok(ParsedPacket::Other { .. }) => {
            let actions: Vec<HostAction> = Vec::new();
            assert(said(actions@) =~= seq![]);
            assert(tun_packet(before, packet_data@, 0, 0) == Ok::<HostStep, PacketFault>(
                HostStep { table: table@, actions: said(actions@) },
            ));
            Ok(actions)
        },
    }
}

/// What a message from the remote calls for.
pub fn handle_remote_message(
    msg: RemoteMessage,
    table: &mut NatTable,
    dns: &mut Option<DnsState>,
) -> (actions: Vec<HostAction>)
    ensures
        (HostStep { table: final(table)@, actions: said(actions@) }) == remote_message(
            old(table)@,
            dns_view(*old(dns)),
            msg@,
        ),
        dns_view(*final(dns)) == dns_after(dns_view(*old(dns)), msg@),
{
    let mut actions: Vec<HostAction> = Vec::new();
    match msg {
        RemoteMessage::TcpConnected { id } => {
            if let Some(key) = table.get_tcp_connection_key(id) {
                table.set_tcp_state(&key, ConnectionState::Established);
                // Send SYN-ACK back to application
                actions.push(
                    numbered_segment(
                        table,
                        id,
                        key,
                        TcpFlags { syn: true, ack: true, ..Default::default() },
                        Vec::new(),
                    ),
                );
                // SYN consumes one sequence number
                table.advance_tcp_seq_syn(id);
            }
        },
        RemoteMessage::TcpData { id, data } => {
            if let Some(key) = table.get_tcp_connection_key(id) {
                let len: u32 = seq_len(data.len());
                // Build TCP packet with data
                actions.push(
                    numbered_segment(
                        table,
                        id,
                        key,
                        TcpFlags { ack: true, psh: true, ..Default::default() },
                        data,
                    ),
                );
                table.advance_tcp_seq(id, len);
            }
        },
        RemoteMessage::TcpClosed { id } => {
            if let Some(key) = table.get_tcp_connection_key(id) {
                match table.get_tcp_state(&key) {
                    Some(ConnectionState::Established) => {
                        // Remote closed first - send FIN+ACK to app
                        actions.push(
                            numbered_segment(
                                table,
                                id,
                                key,
                                TcpFlags { fin: true, ack: true, ..Default::default() },
                                Vec::new(),
                            ),
                        );
                        // FIN consumes 1 sequence number
                        table.advance_tcp_seq(id, 1);
                        table.set_tcp_state(&key, ConnectionState::CloseWait);
                    },
                    Some(ConnectionState::FinWait) => {
                        // App closed first, remote now confirms close - send FIN+ACK to app
                        actions.push(
                            numbered_segment(
                                table,
                                id,
                                key,
                                TcpFlags { fin: true, ack: true, ..Default::default() },
                                Vec::new(),
                            ),
                        );
                        table.advance_tcp_seq(id, 1);
                        table.set_tcp_state(&key, ConnectionState::LastAck);
                    },
                    // Already closing or unexpected state, just clean up
                    _ => {
                        table.close_tcp_connection(&key);
                    },
                }
            }
        },
        RemoteMessage::TcpError { id, .. } => {
            if let Some(key) = table.get_tcp_connection_key(id) {
                // Send RST packet
                actions.push(
                    HostAction::TcpToTun(
                        TcpPacketInfo {
                            src_ip: key.2,
                            dst_ip: key.0,
                            src_port: key.3,
                            dst_port: key.1,
                            seq: 0,
                            ack: 0,
                            flags: TcpFlags { rst: true, ..Default::default() },
                            window: 0,
                            payload: Vec::new(),
                        },
                    ),
                );
                table.close_tcp_connection(&key);
            }
        },
        RemoteMessage::UdpResponse { dst_port, src_ip, src_port, data } => {
            // Find the original source IP for this UDP "connection"
            if let Some(dst_ip) = table.get_udp_src_ip(dst_port, src_ip, src_port) {
                actions.push(
                    HostAction::UdpToTun(
                        UdpPacketInfo { src_ip, dst_ip, src_port, dst_port, payload: data },
                    ),
                );
            }
        },
        RemoteMessage::DnsResponse { id, data } => {
            if let Some(state) = dns {
                if let Some(client) = state.handle_response(id) {
                    actions.push(HostAction::DnsReply { client, data });
                }
            }
        },
        // Already handled earlier
        RemoteMessage::Ready => {},
        RemoteMessage::Error { .. } => {},
    }
    actions
}

} // verus!
