//! What holds of whole conversations between an application, the host and the
//! remote.

use vstd::prelude::*;

use crate::addr::SocketAddr;
use crate::host::dns::DnsView;
use crate::host::forward;
use crate::host::forward::{HostActionView, HostStep};
use crate::host::nat_table;
use crate::host::nat_table::{ConnectionState, NatView, TcpKey, INITIAL_SEQ};
use crate::packet;
use crate::packet::{PacketView, TcpPacketView, UdpPacketView};
use crate::protocol::{HostMessageView, RemoteMessageView};

verus! {

/// The actions write only packets that one packet can carry.
pub open spec fn all_buildable(actions: Seq<HostActionView>) -> bool {
    forall|i: int|
        0 <= i < actions.len() ==> (#[trigger] actions[i]).buildable()
}

/// A packet that is parsed travels between addresses of one family.
pub proof fn law_parsed_packet_has_one_family(data: Seq<u8>)
    ensures
        packet::packet_says(data) matches Ok(PacketView::Tcp(tcp)) ==> tcp.src_ip.same_family(
            tcp.dst_ip,
        ),
        packet::packet_says(data) matches Ok(PacketView::Udp(udp)) ==> udp.src_ip.same_family(
            udp.dst_ip,
        ),
{
}

/// Every segment that answers a segment of one family can be built, and the table
/// keeps to one family per connection.
pub proof fn law_outbound_tcp_keeps_families(table: NatView, tcp: TcpPacketView)
    requires
        tcp.src_ip.same_family(tcp.dst_ip),
        table.one_family(),
    ensures
        all_buildable(forward::outbound_tcp(table, tcp).actions),
        forward::outbound_tcp(table, tcp).table.one_family(),
{
}

/// A tracked datagram keeps to one family per mapping.
pub proof fn law_outbound_udp_keeps_families(
    table: NatView,
    udp: UdpPacketView,
    seen: u128,
    now: u128,
)
    requires
        udp.src_ip.same_family(udp.dst_ip),
        table.one_family(),
    ensures
        all_buildable(forward::outbound_udp(table, udp, seen, now).actions),
        forward::outbound_udp(table, udp, seen, now).table.one_family(),
{
}

/// Whether the payload that a message carries, if any, fits into one packet of the
/// family of its connection or mapping.
pub open spec fn payload_fits(table: NatView, msg: RemoteMessageView) -> bool {
    match msg {
        RemoteMessageView::TcpData { id, data } => table.ids.contains_key(id) ==> data.len()
            <= packet::tcp_payload_limit(table.ids[id].2),
        RemoteMessageView::UdpResponse { src_ip, data, .. } => data.len()
            <= packet::udp_payload_limit(src_ip),
        _ => true,
    }
}

/// A message keeps to one family per connection; and every packet that it calls for
/// can be built, if the payload fits into one packet.
pub proof fn law_remote_message_keeps_families(
    table: NatView,
    dns: Option<DnsView>,
    msg: RemoteMessageView,
)
    requires
        table.one_family(),
    ensures
        forward::remote_message(table, dns, msg).table.one_family(),
        payload_fits(table, msg) ==> all_buildable(
            forward::remote_message(table, dns, msg).actions,
        ),
{
}

/// No packet and no message undoes that every connection is found by its ID, as
/// long as the ID of a new connection is free.
pub proof fn law_steps_keep_connections_linked(
    table: NatView,
    tcp: TcpPacketView,
    udp: UdpPacketView,
    seen: u128,
    now: u128,
    dns: Option<DnsView>,
    msg: RemoteMessageView,
)
    requires
        table.linked(),
        table.next_id_is_free(forward::key_of(tcp)),
    ensures
        forward::outbound_tcp(table, tcp).table.linked(),
        forward::outbound_udp(table, udp, seen, now).table.linked(),
        forward::remote_message(table, dns, msg).table.linked(),
{
}

/// A segment of an unknown connection that does not open one changes nothing and
/// is answered by nothing.
pub proof fn law_unknown_segment_is_ignored(table: NatView, tcp: TcpPacketView)
    requires
        !table.flows.contains_key(forward::key_of(tcp)),
        !(tcp.flags.syn && !tcp.flags.ack),
    ensures
        forward::outbound_tcp(table, tcp) == (HostStep { table, actions: seq![] }),
{
}

/// A message about an unknown connection changes nothing and writes nothing.
pub proof fn law_unknown_id_is_ignored(
    table: NatView,
    dns: Option<DnsView>,
    id: u32,
    data: Seq<u8>,
    error: Seq<char>,
)
    requires
        !table.ids.contains_key(id),
    ensures
        ({
            let nothing = HostStep { table, actions: seq![] };
            &&& forward::remote_message(table, dns, RemoteMessageView::TcpConnected { id })
                == nothing
            &&& forward::remote_message(table, dns, RemoteMessageView::TcpData { id, data })
                == nothing
            &&& forward::remote_message(table, dns, RemoteMessageView::TcpClosed { id }) == nothing
            &&& forward::remote_message(table, dns, RemoteMessageView::TcpError { id, error })
                == nothing
        }),
{
}

/// A RST closes the connection in every state, and the remote is told so and
/// nothing else.
pub proof fn law_rst_closes_in_every_state(table: NatView, tcp: TcpPacketView)
    requires
        table.flows.contains_key(forward::key_of(tcp)),
        tcp.flags.rst,
        !(tcp.flags.syn && !tcp.flags.ack),
    ensures
        ({
            let key = forward::key_of(tcp);
            let id = table.flows[key].id;
            let step = forward::outbound_tcp(table, tcp);
            &&& !step.table.flows.contains_key(key)
            &&& !step.table.ids.contains_key(id)
            &&& step.actions == seq![HostActionView::ToRemote(HostMessageView::TcpClose { id })]
        }),
{
}

/// The handshake: a SYN asks the remote to connect, and once it has, the
/// application gets a SYN-ACK that acknowledges its SYN; data to it is numbered from
/// behind the SYN-ACK.
pub proof fn law_handshake(table: NatView, syn: TcpPacketView, dns: Option<DnsView>)
    requires
        syn.flags.syn,
        !syn.flags.ack,
    ensures
        ({
            let key = forward::key_of(syn);
            let id = table.next_id;
            let asked = forward::outbound_tcp(table, syn);
            let up = forward::remote_message(
                asked.table,
                dns,
                RemoteMessageView::TcpConnected { id },
            );
            &&& asked.actions == seq![
                HostActionView::ToRemote(
                    HostMessageView::TcpConnect {
                        id,
                        dst_ip: syn.dst_ip,
                        dst_port: syn.dst_port,
                    },
                ),
            ]
            &&& up.actions == seq![
                HostActionView::TcpToTun(
                    TcpPacketView {
                        src_ip: syn.dst_ip,
                        dst_ip: syn.src_ip,
                        src_port: syn.dst_port,
                        dst_port: syn.src_port,
                        seq: INITIAL_SEQ,
                        ack: nat_table::wrap_add(syn.seq, 1),
                        flags: forward::flags_syn_ack(),
                        window: forward::WINDOW,
                        payload: seq![],
                    },
                ),
            ]
            &&& up.table.state(key) == Some(ConnectionState::Established)
            &&& up.table.seq(id) == 1001
            &&& up.table.ack(id) == nat_table::wrap_add(syn.seq, 1)
        }),
{
}

/// A connection that the remote could not make is reset, and is gone.
pub proof fn law_failed_connection_is_reset(
    table: NatView,
    syn: TcpPacketView,
    dns: Option<DnsView>,
    error: Seq<char>,
)
    requires
        syn.flags.syn,
        !syn.flags.ack,
    ensures
        ({
            let key = forward::key_of(syn);
            let id = table.next_id;
            let asked = forward::outbound_tcp(table, syn);
            let down = forward::remote_message(
                asked.table,
                dns,
                RemoteMessageView::TcpError { id, error },
            );
            &&& down.actions == seq![
                HostActionView::TcpToTun(
                    forward::to_app(key, 0, 0, forward::flags_rst(), 0, seq![]),
                ),
            ]
            &&& !down.table.flows.contains_key(key)
            &&& !down.table.ids.contains_key(id)
        }),
{
}

/// A connection that is in the table under its key and its ID, in a known state.
pub open spec fn connection_is(table: NatView, key: TcpKey, id: u32, state: ConnectionState) -> bool {
    &&& table.flows.contains_key(key)
    &&& table.flows[key].id == id
    &&& table.flows[key].state == state
    &&& table.ids.contains_key(id)
    &&& table.ids[id] == key
}

/// Data from the remote reaches the application in order and without gaps: each
/// segment starts at the sequence number where the one before it ended.
pub proof fn law_data_to_app_is_contiguous(
    table: NatView,
    dns: Option<DnsView>,
    key: TcpKey,
    id: u32,
    state: ConnectionState,
    first: Seq<u8>,
    second: Seq<u8>,
)
    requires
        connection_is(table, key, id, state),
    ensures
        ({
            let a = forward::remote_message(
                table,
                dns,
                RemoteMessageView::TcpData { id, data: first },
            );
            let b = forward::remote_message(
                a.table,
                dns,
                RemoteMessageView::TcpData { id, data: second },
            );
            let seq = table.seq(id);
            let ack = table.ack(id);
            &&& a.actions == seq![
                HostActionView::TcpToTun(
                    forward::to_app(
                        key,
                        seq,
                        ack,
                        forward::flags_psh_ack(),
                        forward::WINDOW,
                        first,
                    ),
                ),
            ]
            &&& b.actions == seq![
                HostActionView::TcpToTun(
                    forward::to_app(
                        key,
                        nat_table::wrap_add(seq, first.len() as int),
                        ack,
                        forward::flags_psh_ack(),
                        forward::WINDOW,
                        second,
                    ),
                ),
            ]
            &&& connection_is(b.table, key, id, state)
        }),
{
}

/// Data from the application goes to the remote as it is, and the next segment to
/// the application acknowledges all of it.
pub proof fn law_data_from_app_is_acknowledged(
    table: NatView,
    dns: Option<DnsView>,
    tcp: TcpPacketView,
    id: u32,
    reply: Seq<u8>,
)
    requires
        connection_is(table, forward::key_of(tcp), id, ConnectionState::Established),
        !tcp.flags.rst,
        !tcp.flags.fin,
        !(tcp.flags.syn && !tcp.flags.ack),
        tcp.payload.len() > 0,
    ensures
        ({
            let key = forward::key_of(tcp);
            let sent = forward::outbound_tcp(table, tcp);
            let answered = forward::remote_message(
                sent.table,
                dns,
                RemoteMessageView::TcpData { id, data: reply },
            );
            &&& sent.actions == seq![
                HostActionView::ToRemote(HostMessageView::TcpData { id, data: tcp.payload }),
            ]
            &&& answered.actions == seq![
                HostActionView::TcpToTun(
                    forward::to_app(
                        key,
                        table.seq(id),
                        nat_table::wrap_add(tcp.seq, tcp.payload.len() as int),
                        forward::flags_psh_ack(),
                        forward::WINDOW,
                        reply,
                    ),
                ),
            ]
        }),
{
}

/// The application closes first. Its FIN is acknowledged and the remote is told to
/// close; when the remote has closed, the application gets a FIN; its last ACK ends
/// the connection.
pub proof fn law_app_closes_first(
    table: NatView,
    dns: Option<DnsView>,
    fin: TcpPacketView,
    last: TcpPacketView,
    id: u32,
)
    requires
        connection_is(table, forward::key_of(fin), id, ConnectionState::Established),
        fin.flags.fin,
        !fin.flags.rst,
        !(fin.flags.syn && !fin.flags.ack),
        forward::key_of(last) == forward::key_of(fin),
        last.flags.ack,
        !last.flags.rst,
    ensures
        ({
            let key = forward::key_of(fin);
            let seq = table.seq(id);
            let ack = nat_table::wrap_add(fin.seq, fin.payload.len() as int + 1);
            let a = forward::outbound_tcp(table, fin);
            let b = forward::remote_message(a.table, dns, RemoteMessageView::TcpClosed { id });
            let c = forward::outbound_tcp(b.table, last);
            &&& a.actions == forward::data_to_remote(id, fin.payload) + seq![
                HostActionView::TcpToTun(
                    forward::to_app(key, seq, ack, forward::flags_ack(), forward::WINDOW, seq![]),
                ),
                HostActionView::ToRemote(HostMessageView::TcpClose { id }),
            ]
            &&& connection_is(a.table, key, id, ConnectionState::FinWait)
            &&& b.actions == seq![
                HostActionView::TcpToTun(
                    forward::to_app(
                        key,
                        seq,
                        ack,
                        forward::flags_fin_ack(),
                        forward::WINDOW,
                        seq![],
                    ),
                ),
            ]
            &&& connection_is(b.table, key, id, ConnectionState::LastAck)
            &&& c.actions == Seq::<HostActionView>::empty()
            &&& !c.table.flows.contains_key(key)
            &&& !c.table.ids.contains_key(id)
        }),
{
}

/// The remote closes first. The application gets a FIN; its own FIN is
/// acknowledged and ends the connection. The remote is not told to close what it
/// has closed.
pub proof fn law_remote_closes_first(
    table: NatView,
    dns: Option<DnsView>,
    fin: TcpPacketView,
    id: u32,
)
    requires
        connection_is(table, forward::key_of(fin), id, ConnectionState::Established),
        fin.flags.fin,
        !fin.flags.rst,
        !(fin.flags.syn && !fin.flags.ack),
    ensures
        ({
            let key = forward::key_of(fin);
            let seq = table.seq(id);
            let a = forward::remote_message(table, dns, RemoteMessageView::TcpClosed { id });
            let b = forward::outbound_tcp(a.table, fin);
            &&& a.actions == seq![
                HostActionView::TcpToTun(
                    forward::to_app(
                        key,
                        seq,
                        table.ack(id),
                        forward::flags_fin_ack(),
                        forward::WINDOW,
                        seq![],
                    ),
                ),
            ]
            &&& connection_is(a.table, key, id, ConnectionState::CloseWait)
            &&& b.actions == seq![
                HostActionView::TcpToTun(
                    forward::to_app(
                        key,
                        nat_table::wrap_add(seq, 1),
                        nat_table::wrap_add(fin.seq, 1),
                        forward::flags_ack(),
                        forward::WINDOW,
                        seq![],
                    ),
                ),
            ]
            &&& !b.table.flows.contains_key(key)
            &&& !b.table.ids.contains_key(id)
        }),
{
}

/// A segment touches no connection but its own, and no UDP mapping.
pub proof fn law_segment_touches_its_own_connection(table: NatView, tcp: TcpPacketView, other: TcpKey)
    requires
        table.linked(),
        other != forward::key_of(tcp),
    ensures
        forward::outbound_tcp(table, tcp).table.flows.get(other) == table.flows.get(other),
        forward::outbound_tcp(table, tcp).table.udp == table.udp,
{
}

/// A message touches no connection but the one that its ID leads to, and no UDP
/// mapping.
pub proof fn law_message_touches_its_own_connection(
    table: NatView,
    dns: Option<DnsView>,
    msg: RemoteMessageView,
    other: TcpKey,
)
    requires
        match msg {
            RemoteMessageView::TcpConnected { id } => table.ids.get(id) != Some(other),
            RemoteMessageView::TcpData { id, .. } => table.ids.get(id) != Some(other),
            RemoteMessageView::TcpClosed { id } => table.ids.get(id) != Some(other),
            RemoteMessageView::TcpError { id, .. } => table.ids.get(id) != Some(other),
            _ => true,
        },
    ensures
        forward::remote_message(table, dns, msg).table.flows.get(other) == table.flows.get(other),
        forward::remote_message(table, dns, msg).table.udp == table.udp,
{
}

/// No segment of the application touches a UDP mapping.
pub proof fn law_segments_leave_udp_alone(table: NatView, tcp: TcpPacketView)
    ensures
        forward::outbound_tcp(table, tcp).table.udp == table.udp,
{
}

/// No message of the remote touches a UDP mapping.
pub proof fn law_messages_leave_udp_alone(
    table: NatView,
    dns: Option<DnsView>,
    msg: RemoteMessageView,
)
    ensures
        forward::remote_message(table, dns, msg).table.udp == table.udp,
{
}

/// An answer to a datagram reaches the application that sent the datagram, from the
/// address that it sent to.
pub proof fn law_udp_answer_returns(
    table: NatView,
    dns: Option<DnsView>,
    udp: UdpPacketView,
    seen: u128,
    now: u128,
    answer: Seq<u8>,
)
    requires
        now - seen < nat_table::UDP_TIMEOUT_NANOS,
    ensures
        ({
            let sent = forward::outbound_udp(table, udp, seen, now);
            let back = forward::remote_message(
                sent.table,
                dns,
                RemoteMessageView::UdpResponse {
                    dst_port: udp.src_port,
                    src_ip: udp.dst_ip,
                    src_port: udp.dst_port,
                    data: answer,
                },
            );
            back.actions == seq![
                HostActionView::UdpToTun(
                    UdpPacketView {
                        src_ip: udp.dst_ip,
                        dst_ip: udp.src_ip,
                        src_port: udp.dst_port,
                        dst_port: udp.src_port,
                        payload: answer,
                    },
                ),
            ]
        }),
{
}

/// A DNS answer reaches the client whose query it answers, and the query is then
/// pending no more.
pub proof fn law_dns_answer_returns(
    table: NatView,
    dns: DnsView,
    sender: SocketAddr,
    answer: Seq<u8>,
)
    ensures
        ({
            let id = dns.next_id;
            let msg = RemoteMessageView::DnsResponse { id, data: answer };
            let asked = Some(dns.query(sender));
            let step = forward::remote_message(table, asked, msg);
            let after = forward::dns_after(asked, msg);
            &&& step == HostStep {
                table,
                actions: seq![HostActionView::DnsReply { client: sender, data: answer }],
            }
            &&& forward::remote_message(table, after, msg) == HostStep { table, actions: seq![] }
        }),
{
}

} // verus!
