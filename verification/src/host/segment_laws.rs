//! What each segment, datagram and message does to the NAT table, and what it is
//! answered.

use vstd::prelude::*;

use crate::addr::IpAddr;
use crate::host::dns::DnsView;
use crate::host::forward;
use crate::host::forward::{HostActionView, HostStep};
use crate::host::laws;
use crate::host::nat_laws;
use crate::host::nat_table::{ConnectionState, NatView, TcpKey, UdpReturnKey};
use crate::packet;
use crate::packet::{PacketFault, PacketView, TcpFlags, TcpPacketView, UdpPacketView};
use crate::protocol::{HostMessageView, RemoteMessageView};

verus! {

/// Whether a segment opens a connection: a SYN that acknowledges nothing.
pub open spec fn opens(tcp: TcpPacketView) -> bool {
    tcp.flags.syn && !tcp.flags.ack
}

/// Whether an action writes this segment on the connection under `key`: from the
/// destination to the source of the connection.
pub open spec fn writes(
    action: HostActionView,
    key: TcpKey,
    seq: int,
    ack: int,
    syn: bool,
    acks: bool,
    fin: bool,
    rst: bool,
    psh: bool,
    window: u16,
    payload: Seq<u8>,
) -> bool {
    action matches HostActionView::TcpToTun(tcp) && {
        &&& tcp.src_ip == key.2
        &&& tcp.src_port == key.3
        &&& tcp.dst_ip == key.0
        &&& tcp.dst_port == key.1
        &&& nat_laws::congruent(tcp.seq as int, seq)
        &&& nat_laws::congruent(tcp.ack as int, ack)
        &&& tcp.flags == (TcpFlags { syn, ack: acks, fin, rst, psh })
        &&& tcp.window == window
        &&& tcp.payload == payload
    }
}

/// Whether the connection under `key` has gone, with its ID, and nothing else has
/// changed.
pub open spec fn gone(before: NatView, after: NatView, key: TcpKey, id: u32) -> bool {
    &&& !after.flows.contains_key(key)
    &&& !after.ids.contains_key(id)
    &&& after.udp == before.udp
    &&& after.next_id == before.next_id
    &&& forall|other: TcpKey|
        other != key ==> #[trigger] after.flows.get(other) == before.flows.get(other)
    &&& forall|other: u32|
        other != id ==> #[trigger] after.ids.get(other) == before.ids.get(other)
}

/// Whether the connection under `key` has come into this state with these numbers, and
/// nothing else has changed.
pub open spec fn moved(
    before: NatView,
    after: NatView,
    key: TcpKey,
    state: ConnectionState,
    seq: int,
    ack: int,
) -> bool {
    &&& nat_laws::same_but_for(before, after, key)
    &&& after.flows.contains_key(key)
    &&& after.flows[key].id == before.flows[key].id
    &&& after.flows[key].state == state
    &&& nat_laws::congruent(after.flows[key].seq as int, seq)
    &&& nat_laws::congruent(after.flows[key].ack as int, ack)
}

/// A SYN opens a connection, whatever the table holds: the remote is asked to connect
/// to the destination under a new ID, and the connection starts anew.
pub proof fn law_syn_opens(table: NatView, tcp: TcpPacketView)
    requires
        opens(tcp),
    ensures
        ({
            let step = forward::outbound_tcp(table, tcp);
            let key = (tcp.src_ip, tcp.src_port, tcp.dst_ip, tcp.dst_port);
            let id = table.next_id;
            &&& step.actions == seq![
                HostActionView::ToRemote(
                    HostMessageView::TcpConnect {
                        id,
                        dst_ip: tcp.dst_ip,
                        dst_port: tcp.dst_port,
                    },
                ),
            ]
            &&& step.table.flows.contains_key(key)
            &&& step.table.flows[key].id == id
            &&& step.table.flows[key].state == ConnectionState::SynSent
            &&& step.table.flows[key].seq == 1000
            &&& nat_laws::congruent(step.table.flows[key].ack as int, tcp.seq + 1)
            &&& step.table.ids.get(id) == Some(key)
            &&& nat_laws::congruent(step.table.next_id as int, id + 1)
            &&& step.table.udp == table.udp
            &&& forall|other: TcpKey|
                other != key ==> #[trigger] step.table.flows.get(other) == table.flows.get(other)
            &&& forall|other: u32|
                other != id ==> #[trigger] step.table.ids.get(other) == table.ids.get(other)
        }),
{
}

/// A segment is passed over, with the whole table as it was and no answer, where it
/// opens nothing and resets nothing and
/// - its connection is unknown, not yet established, or closed by the application, or
/// - its connection is established and it has neither data nor a FIN, as a bare ACK, or
/// - its connection is closed by the remote and it has no FIN, or
/// - its connection waits for the last ACK and it has none.
pub proof fn law_segments_that_are_passed_over(table: NatView, tcp: TcpPacketView)
    requires
        !opens(tcp),
        ({
            let key = (tcp.src_ip, tcp.src_port, tcp.dst_ip, tcp.dst_port);
            ||| !table.flows.contains_key(key)
            ||| !tcp.flags.rst && table.flows[key].state == ConnectionState::SynSent
            ||| !tcp.flags.rst && table.flows[key].state == ConnectionState::FinWait
            ||| !tcp.flags.rst && table.flows[key].state == ConnectionState::Closed
            ||| !tcp.flags.rst && table.flows[key].state == ConnectionState::Established
                && !tcp.flags.fin && tcp.payload.len() == 0
            ||| !tcp.flags.rst && table.flows[key].state == ConnectionState::CloseWait
                && !tcp.flags.fin
            ||| !tcp.flags.rst && table.flows[key].state == ConnectionState::LastAck
                && !tcp.flags.ack
        }),
    ensures
        forward::outbound_tcp(table, tcp).table == table,
        forward::outbound_tcp(table, tcp).actions.len() == 0,
{
}

/// Data of the application on an established connection goes to the remote as it is,
/// and is expected no more; the connection stays established, and nothing else
/// changes.
pub proof fn law_data_of_the_app(table: NatView, tcp: TcpPacketView, id: u32)
    requires
        laws::connection_is(
            table,
            (tcp.src_ip, tcp.src_port, tcp.dst_ip, tcp.dst_port),
            id,
            ConnectionState::Established,
        ),
        !opens(tcp),
        !tcp.flags.rst,
        !tcp.flags.fin,
        tcp.payload.len() > 0,
    ensures
        ({
            let step = forward::outbound_tcp(table, tcp);
            let key = (tcp.src_ip, tcp.src_port, tcp.dst_ip, tcp.dst_port);
            &&& step.actions == seq![
                HostActionView::ToRemote(HostMessageView::TcpData { id, data: tcp.payload }),
            ]
            &&& moved(
                table,
                step.table,
                key,
                ConnectionState::Established,
                table.flows[key].seq as int,
                tcp.seq + tcp.payload.len(),
            )
        }),
{
}

/// A FIN of the application on an established connection: its data, if any, goes to the
/// remote; the application gets an ACK of the data and the FIN; the remote is told to
/// close. Nothing else changes.
pub proof fn law_fin_of_the_app(table: NatView, tcp: TcpPacketView, id: u32)
    requires
        laws::connection_is(
            table,
            (tcp.src_ip, tcp.src_port, tcp.dst_ip, tcp.dst_port),
            id,
            ConnectionState::Established,
        ),
        !opens(tcp),
        !tcp.flags.rst,
        tcp.flags.fin,
    ensures
        ({
            let step = forward::outbound_tcp(table, tcp);
            let key = (tcp.src_ip, tcp.src_port, tcp.dst_ip, tcp.dst_port);
            let seq = table.flows[key].seq as int;
            let ack = tcp.seq + tcp.payload.len() + 1;
            let n = step.actions.len();
            &&& n == (if tcp.payload.len() > 0 {
                3int
            } else {
                2
            })
            &&& tcp.payload.len() > 0 ==> step.actions[0] == HostActionView::ToRemote(
                HostMessageView::TcpData { id, data: tcp.payload },
            )
            &&& writes(
                step.actions[n - 2],
                key,
                seq,
                ack,
                false,
                true,
                false,
                false,
                false,
                65535,
                seq![],
            )
            &&& step.actions[n - 1] == HostActionView::ToRemote(HostMessageView::TcpClose { id })
            &&& moved(table, step.table, key, ConnectionState::FinWait, seq, ack)
        }),
{
}

/// A FIN of the application after that of the remote: the application gets an ACK of
/// it, and the connection is gone.
pub proof fn law_last_fin_of_the_app(table: NatView, tcp: TcpPacketView, id: u32)
    requires
        laws::connection_is(
            table,
            (tcp.src_ip, tcp.src_port, tcp.dst_ip, tcp.dst_port),
            id,
            ConnectionState::CloseWait,
        ),
        !opens(tcp),
        !tcp.flags.rst,
        tcp.flags.fin,
    ensures
        ({
            let step = forward::outbound_tcp(table, tcp);
            let key = (tcp.src_ip, tcp.src_port, tcp.dst_ip, tcp.dst_port);
            &&& step.actions.len() == 1
            &&& writes(
                step.actions[0],
                key,
                table.flows[key].seq as int,
                tcp.seq + 1,
                false,
                true,
                false,
                false,
                false,
                65535,
                seq![],
            )
            &&& gone(table, step.table, key, id)
        }),
{
}

/// The last ACK of the application, and a RST in any state, end the connection; the
/// remote is told of the RST alone.
pub proof fn law_what_ends_a_connection(table: NatView, tcp: TcpPacketView, id: u32)
    requires
        !opens(tcp),
        ({
            let key = (tcp.src_ip, tcp.src_port, tcp.dst_ip, tcp.dst_port);
            &&& table.flows.contains_key(key)
            &&& table.flows[key].id == id
            &&& tcp.flags.rst || (table.flows[key].state == ConnectionState::LastAck
                && tcp.flags.ack)
        }),
    ensures
        ({
            let step = forward::outbound_tcp(table, tcp);
            let key = (tcp.src_ip, tcp.src_port, tcp.dst_ip, tcp.dst_port);
            &&& gone(table, step.table, key, id)
            &&& tcp.flags.rst ==> step.actions == seq![
                HostActionView::ToRemote(HostMessageView::TcpClose { id }),
            ]
            &&& !tcp.flags.rst ==> step.actions.len() == 0
        }),
{
}

/// A connection leaves the table only by a RST, by the last segment of a close where
/// both sides have sent a FIN, or by an error or a close from the remote; it comes into
/// the table only by a SYN. A datagram does neither.
pub proof fn law_how_connections_come_and_go(
    table: NatView,
    tcp: TcpPacketView,
    udp: UdpPacketView,
    seen: u128,
    now: u128,
    dns: Option<DnsView>,
    msg: RemoteMessageView,
    key: TcpKey,
)
    ensures
        ({
            let after = forward::outbound_tcp(table, tcp).table;
            let own = key == (tcp.src_ip, tcp.src_port, tcp.dst_ip, tcp.dst_port);
            &&& table.flows.contains_key(key) && !after.flows.contains_key(key) ==> {
                &&& own
                &&& !opens(tcp)
                &&& tcp.flags.rst || (table.flows[key].state == ConnectionState::CloseWait
                    && tcp.flags.fin) || (table.flows[key].state == ConnectionState::LastAck
                    && tcp.flags.ack)
            }
            &&& !table.flows.contains_key(key) && after.flows.contains_key(key) ==> own && opens(
                tcp,
            )
        }),
        ({
            let after = forward::remote_message(table, dns, msg).table;
            &&& table.flows.contains_key(key) && !after.flows.contains_key(key) ==> (match msg {
                RemoteMessageView::TcpError { id, .. } => table.ids.get(id) == Some(key),
                RemoteMessageView::TcpClosed { id } => table.ids.get(id) == Some(key)
                    && table.flows[key].state != ConnectionState::Established
                    && table.flows[key].state != ConnectionState::FinWait,
                _ => false,
            })
            &&& after.flows.contains_key(key) ==> table.flows.contains_key(key)
        }),
        forward::outbound_udp(table, udp, seen, now).table.flows == table.flows,
        forward::outbound_udp(table, udp, seen, now).table.ids == table.ids,
        forward::outbound_udp(table, udp, seen, now).table.next_id == table.next_id,
{
}

/// The state of a connection changes only so: a SYN starts it anew, a FIN of the
/// application makes an established one wait for the remote, the remote's word makes it
/// established, and the remote's close makes it wait for the application's FIN or last
/// ACK. The ID of a connection changes only by a SYN.
pub proof fn law_how_states_change(
    table: NatView,
    tcp: TcpPacketView,
    dns: Option<DnsView>,
    msg: RemoteMessageView,
    key: TcpKey,
)
    requires
        table.flows.contains_key(key),
    ensures
        ({
            let after = forward::outbound_tcp(table, tcp).table;
            let from = table.flows[key].state;
            let to = after.flows[key].state;
            after.flows.contains_key(key) && (to != from || after.flows[key].id
                != table.flows[key].id) ==> {
                &&& key == (tcp.src_ip, tcp.src_port, tcp.dst_ip, tcp.dst_port)
                &&& {
                    ||| opens(tcp) && to == ConnectionState::SynSent
                    ||| !tcp.flags.rst && tcp.flags.fin && from == ConnectionState::Established
                        && to == ConnectionState::FinWait && after.flows[key].id
                        == table.flows[key].id
                }
            }
        }),
        ({
            let after = forward::remote_message(table, dns, msg).table;
            let from = table.flows[key].state;
            let to = after.flows[key].state;
            &&& after.flows.contains_key(key) ==> after.flows[key].id == table.flows[key].id
            &&& after.flows.contains_key(key) && to != from ==> (match msg {
                RemoteMessageView::TcpConnected { id } => table.ids.get(id) == Some(key) && to
                    == ConnectionState::Established,
                RemoteMessageView::TcpClosed { id } => table.ids.get(id) == Some(key) && ((from
                    == ConnectionState::Established && to == ConnectionState::CloseWait) || (from
                    == ConnectionState::FinWait && to == ConnectionState::LastAck)),
                _ => false,
            })
        }),
{
}

/// Whether an ID leads to the connection under `key`, which is in this state.
pub open spec fn leads_to(table: NatView, id: u32, key: TcpKey, state: ConnectionState) -> bool {
    &&& table.ids.get(id) == Some(key)
    &&& table.flows.contains_key(key)
    &&& table.flows[key].state == state
}

/// Once the remote has connected, in whatever state the connection is, it is
/// established, and the application gets a SYN-ACK, which uses up one sequence number.
/// Nothing else changes.
pub proof fn law_remote_connected(
    table: NatView,
    dns: Option<DnsView>,
    key: TcpKey,
    id: u32,
    state: ConnectionState,
)
    requires
        leads_to(table, id, key, state),
    ensures
        ({
            let step = forward::remote_message(table, dns, RemoteMessageView::TcpConnected { id });
            let seq = table.flows[key].seq as int;
            let ack = table.flows[key].ack as int;
            &&& step.actions.len() == 1
            &&& writes(
                step.actions[0],
                key,
                seq,
                ack,
                true,
                true,
                false,
                false,
                false,
                65535,
                seq![],
            )
            &&& moved(table, step.table, key, ConnectionState::Established, seq + 1, ack)
        }),
{
}

/// Data of the remote goes to the application as it is, in whatever state the
/// connection is, and uses up as many sequence numbers. Nothing else changes.
pub proof fn law_data_of_the_remote(
    table: NatView,
    dns: Option<DnsView>,
    key: TcpKey,
    id: u32,
    state: ConnectionState,
    data: Seq<u8>,
)
    requires
        leads_to(table, id, key, state),
    ensures
        ({
            let step = forward::remote_message(table, dns, RemoteMessageView::TcpData { id, data });
            let seq = table.flows[key].seq as int;
            let ack = table.flows[key].ack as int;
            &&& step.actions.len() == 1
            &&& writes(
                step.actions[0],
                key,
                seq,
                ack,
                false,
                true,
                false,
                false,
                true,
                65535,
                data,
            )
            &&& moved(table, step.table, key, state, seq + data.len(), ack)
        }),
{
}

/// When the remote has closed, the application gets a FIN if the connection was
/// established or waited for the remote, and the FIN uses up one sequence number. In
/// any other state the connection is gone without a word.
pub proof fn law_remote_closed(
    table: NatView,
    dns: Option<DnsView>,
    key: TcpKey,
    id: u32,
    state: ConnectionState,
)
    requires
        leads_to(table, id, key, state),
    ensures
        ({
            let step = forward::remote_message(table, dns, RemoteMessageView::TcpClosed { id });
            let seq = table.flows[key].seq as int;
            let ack = table.flows[key].ack as int;
            if state == ConnectionState::Established || state == ConnectionState::FinWait {
                &&& step.actions.len() == 1
                &&& writes(
                    step.actions[0],
                    key,
                    seq,
                    ack,
                    false,
                    true,
                    true,
                    false,
                    false,
                    65535,
                    seq![],
                )
                &&& moved(
                    table,
                    step.table,
                    key,
                    if state == ConnectionState::Established {
                        ConnectionState::CloseWait
                    } else {
                        ConnectionState::LastAck
                    },
                    seq + 1,
                    ack,
                )
            } else {
                &&& step.actions.len() == 0
                &&& gone(table, step.table, key, table.flows[key].id)
            }
        }),
{
}

/// When a connection has failed at the remote, in whatever state it is, the application
/// gets a RST, and the connection is gone.
pub proof fn law_remote_failed(
    table: NatView,
    dns: Option<DnsView>,
    key: TcpKey,
    id: u32,
    state: ConnectionState,
    error: Seq<char>,
)
    requires
        leads_to(table, id, key, state),
    ensures
        ({
            let step = forward::remote_message(
                table,
                dns,
                RemoteMessageView::TcpError { id, error },
            );
            &&& step.actions.len() == 1
            &&& writes(
                step.actions[0],
                key,
                0,
                0,
                false,
                false,
                false,
                true,
                false,
                0,
                seq![],
            )
            &&& gone(table, step.table, key, table.flows[key].id)
        }),
{
}

/// An ID under whose key there is no connection: what the remote says of it goes to the
/// application with the numbers 0, a close excepted, and changes nothing.
pub proof fn law_remote_speaks_of_a_lost_connection(
    table: NatView,
    dns: Option<DnsView>,
    key: TcpKey,
    id: u32,
    data: Seq<u8>,
    error: Seq<char>,
)
    requires
        table.ids.get(id) == Some(key),
        !table.flows.contains_key(key),
    ensures
        ({
            let up = forward::remote_message(table, dns, RemoteMessageView::TcpConnected { id });
            let more = forward::remote_message(table, dns, RemoteMessageView::TcpData { id, data });
            let closed = forward::remote_message(table, dns, RemoteMessageView::TcpClosed { id });
            let failed = forward::remote_message(
                table,
                dns,
                RemoteMessageView::TcpError { id, error },
            );
            &&& up.table == table
            &&& more.table == table
            &&& closed.table == table
            &&& failed.table == table
            &&& up.actions.len() == 1
            &&& writes(
                up.actions[0],
                key,
                0,
                0,
                true,
                true,
                false,
                false,
                false,
                65535,
                seq![],
            )
            &&& more.actions.len() == 1
            &&& writes(more.actions[0], key, 0, 0, false, true, false, false, true, 65535, data)
            &&& closed.actions.len() == 0
            &&& failed.actions.len() == 1
            &&& writes(failed.actions[0], key, 0, 0, false, false, false, true, false, 0, seq![])
        }),
{
}

/// An ID that leads nowhere: what the remote says of it changes nothing and is passed on
/// to nobody.
pub proof fn law_remote_speaks_of_an_unknown_id(
    table: NatView,
    dns: Option<DnsView>,
    id: u32,
    msg: RemoteMessageView,
)
    requires
        !table.ids.contains_key(id),
        match msg {
            RemoteMessageView::TcpConnected { id: told } => told == id,
            RemoteMessageView::TcpData { id: told, .. } => told == id,
            RemoteMessageView::TcpClosed { id: told } => told == id,
            RemoteMessageView::TcpError { id: told, .. } => told == id,
            _ => false,
        },
    ensures
        forward::remote_message(table, dns, msg).table == table,
        forward::remote_message(table, dns, msg).actions.len() == 0,
{
}

/// A datagram of the application goes to the remote with its ports and destination and
/// its payload as it is, and its sender is noted for the answer.
pub proof fn law_datagram_of_the_app(table: NatView, udp: UdpPacketView, seen: u128, now: u128)
    ensures
        ({
            let step = forward::outbound_udp(table, udp, seen, now);
            let key = (udp.src_port, udp.dst_ip, udp.dst_port);
            &&& step.actions == seq![
                HostActionView::ToRemote(
                    HostMessageView::UdpDatagram {
                        src_port: udp.src_port,
                        dst_ip: udp.dst_ip,
                        dst_port: udp.dst_port,
                        data: udp.payload,
                    },
                ),
            ]
            &&& now - seen < 60_000_000_000 ==> step.table.udp.contains_key(key)
                && step.table.udp[key].src_ip == udp.src_ip
            &&& forall|other: UdpReturnKey|
                other != key && table.udp.contains_key(other) && now
                    - table.udp[other].last_activity < 60_000_000_000
                    ==> #[trigger] step.table.udp.get(other) == table.udp.get(other)
        }),
{
    nat_laws::law_track_notes_the_sender(
        table,
        udp.src_ip,
        udp.src_port,
        udp.dst_ip,
        udp.dst_port,
        seen,
        now,
    );
}

/// A datagram from the remote goes to the address that is noted for its source and
/// port, with its payload as it is; where none is noted, it is dropped. The table stays
/// as it is.
pub proof fn law_datagram_of_the_remote(
    table: NatView,
    dns: Option<DnsView>,
    dst_port: u16,
    src_ip: IpAddr,
    src_port: u16,
    data: Seq<u8>,
)
    ensures
        ({
            let step = forward::remote_message(
                table,
                dns,
                RemoteMessageView::UdpResponse { dst_port, src_ip, src_port, data },
            );
            let key = (dst_port, src_ip, src_port);
            &&& step.table == table
            &&& table.udp.contains_key(key) ==> step.actions == seq![
                HostActionView::UdpToTun(
                    UdpPacketView {
                        src_ip,
                        dst_ip: table.udp[key].src_ip,
                        src_port,
                        dst_port,
                        payload: data,
                    },
                ),
            ]
            &&& !table.udp.contains_key(key) ==> step.actions.len() == 0
        }),
{
}

/// A DNS answer goes to the client that waits under its ID, as it is, and the client
/// waits no more; where nobody waits, it is dropped. Other clients go on waiting, and
/// the table stays as it is. No other message touches the waiting clients.
pub proof fn law_dns_answer_of_the_remote(
    table: NatView,
    dns: Option<DnsView>,
    msg: RemoteMessageView,
)
    ensures
        ({
            let step = forward::remote_message(table, dns, msg);
            let after = forward::dns_after(dns, msg);
            match msg {
                RemoteMessageView::DnsResponse { id, data } => {
                    &&& step.table == table
                    &&& dns is None ==> step.actions.len() == 0 && after is None
                    &&& dns matches Some(state) ==> {
                        &&& state.pending.contains_key(id) ==> step.actions == seq![
                            HostActionView::DnsReply { client: state.pending[id], data },
                        ]
                        &&& !state.pending.contains_key(id) ==> step.actions.len() == 0
                        &&& after matches Some(left) && {
                            &&& left.server == state.server
                            &&& left.next_id == state.next_id
                            &&& !left.pending.contains_key(id)
                            &&& forall|other: u32|
                                other != id ==> #[trigger] left.pending.get(other)
                                    == state.pending.get(other)
                        }
                    }
                },
                _ => after == dns,
            }
        }),
{
}

/// That the remote is ready, or has an error of its own, changes nothing and is
/// answered by nothing.
pub proof fn law_notices_of_the_remote(table: NatView, dns: Option<DnsView>, error: Seq<char>)
    ensures
        forward::remote_message(table, dns, RemoteMessageView::Ready) == (HostStep {
            table,
            actions: seq![],
        }),
        forward::remote_message(table, dns, RemoteMessageView::Error { error }) == (HostStep {
            table,
            actions: seq![],
        }),
{
}

/// A packet is treated as what it says: a segment, a datagram, or something that is
/// passed over; one that says nothing is an error.
pub proof fn law_packets_are_treated_as_what_they_say(
    table: NatView,
    data: Seq<u8>,
    seen: u128,
    now: u128,
)
    ensures
        match packet::packet_says(data) {
            Ok(PacketView::Tcp(tcp)) => forward::tun_packet(table, data, seen, now) == Ok::<
                HostStep,
                PacketFault,
            >(forward::outbound_tcp(table, tcp)),
            Ok(PacketView::Udp(udp)) => forward::tun_packet(table, data, seen, now) == Ok::<
                HostStep,
                PacketFault,
            >(forward::outbound_udp(table, udp, seen, now)),
            Ok(PacketView::Other { .. }) => forward::tun_packet(table, data, seen, now) == Ok::<
                HostStep,
                PacketFault,
            >(HostStep { table, actions: seq![] }),
            Err(fault) => forward::tun_packet(table, data, seen, now) == Err::<
                HostStep,
                PacketFault,
            >(fault),
        },
{
}

/// The segments that the host writes: from the destination to the source of the
/// connection, with the numbers and the payload that they are made with.
pub proof fn law_segments_to_the_app(
    table: NatView,
    id: u32,
    key: TcpKey,
    seq: u32,
    ack: u32,
    flags: TcpFlags,
    window: u16,
    payload: Seq<u8>,
)
    ensures
        forward::to_app(key, seq, ack, flags, window, payload) == (TcpPacketView {
            src_ip: key.2,
            dst_ip: key.0,
            src_port: key.3,
            dst_port: key.1,
            seq,
            ack,
            flags,
            window,
            payload,
        }),
        forward::flags_ack() == (TcpFlags {
            syn: false,
            ack: true,
            fin: false,
            rst: false,
            psh: false,
        }),
        forward::flags_syn_ack() == (TcpFlags {
            syn: true,
            ack: true,
            fin: false,
            rst: false,
            psh: false,
        }),
        forward::flags_psh_ack() == (TcpFlags {
            syn: false,
            ack: true,
            fin: false,
            rst: false,
            psh: true,
        }),
        forward::flags_fin_ack() == (TcpFlags {
            syn: false,
            ack: true,
            fin: true,
            rst: false,
            psh: false,
        }),
        forward::flags_rst() == (TcpFlags {
            syn: false,
            ack: false,
            fin: false,
            rst: true,
            psh: false,
        }),
        forward::WINDOW == 65535,
{
}

/// The key of a connection: source and destination of the segments of the application.
/// Answers to a datagram come back under its ports and destination.
pub proof fn law_keys(tcp: TcpPacketView, udp: UdpPacketView)
    ensures
        forward::key_of(tcp) == (tcp.src_ip, tcp.src_port, tcp.dst_ip, tcp.dst_port),
        forward::return_key(udp) == (udp.src_port, udp.dst_ip, udp.dst_port),
{
}

} // verus!
