//! What holds of the two ends of the tunnel together.

use vstd::prelude::*;

use crate::addr::{IpAddr, SocketAddr};
use crate::host::dns::DnsView;
use crate::host::forward;
use crate::host::forward::HostActionView;
use crate::host::laws;
use crate::host::nat_table;
use crate::host::nat_table::{ConnectionState, NatView};
use crate::host::session;
use crate::packet::{TcpPacketView, UdpPacketView};
use crate::protocol::RemoteMessageView;
use crate::remote::proxy;
use crate::remote::proxy::RelayEventView;
use crate::remote::{RemoteActionView, RemoteEventView, RemoteView};

verus! {

/// A datagram of an application leaves the remote for the address that the
/// application sent it to, as it is; and the answer from there reaches the
/// application, as it is, as if it came from there directly.
pub proof fn law_udp_goes_through_the_tunnel(
    table: NatView,
    dns: Option<DnsView>,
    remote: RemoteView,
    udp: UdpPacketView,
    seen: u128,
    now: u128,
    answer: Vec<u8>,
)
    requires
        now - seen < nat_table::UDP_TIMEOUT_NANOS,
    ensures
        ({
            let out = forward::outbound_udp(table, udp, seen, now);
            let reply = proxy::udp_reply(udp.src_port, (udp.dst_ip, udp.dst_port, answer));
            let back = forward::remote_message(out.table, dns, reply);
            &&& out.actions.len() == 1
            &&& out.actions[0] matches HostActionView::ToRemote(msg)
            &&& remote.action(msg) == (RemoteActionView::SendUdp {
                src_port: udp.src_port,
                dst_ip: udp.dst_ip,
                dst_port: udp.dst_port,
                data: udp.payload,
            })
            &&& back.actions == seq![
                HostActionView::UdpToTun(
                    UdpPacketView {
                        src_ip: udp.dst_ip,
                        dst_ip: udp.src_ip,
                        src_port: udp.dst_port,
                        dst_port: udp.src_port,
                        payload: answer@,
                    },
                ),
            ]
        }),
{
}

/// A DNS query of a local client leaves the remote for the DNS server of the tunnel,
/// as it is, and the answer reaches the client, as it is.
pub proof fn law_dns_goes_through_the_tunnel(
    host: session::HostView,
    dns: DnsView,
    remote: RemoteView,
    query: Seq<u8>,
    sender: SocketAddr,
    from: (IpAddr, u16),
    answer: Vec<u8>,
)
    requires
        host.dns == Some(dns),
    ensures
        ({
            let out = host.react(session::HostEventView::DnsQuery { data: query, sender });
            let reply = proxy::dns_reply(dns.next_id, (from.0, from.1, answer));
            let back = out.host.react(session::HostEventView::Message(reply));
            &&& out.actions.len() == 1
            &&& out.actions[0] matches HostActionView::ToRemote(msg)
            &&& remote.action(msg) == (RemoteActionView::SendDns {
                id: dns.next_id,
                server: dns.server,
                data: query,
            })
            &&& back.actions == seq![
                HostActionView::DnsReply { client: sender, data: answer@ },
            ]
        }),
{
}

/// A SYN of an application makes the remote connect to the address that the
/// application wants; data of the application is then written to that connection as
/// it is, and data from there reaches the application as it is.
pub proof fn law_tcp_goes_through_the_tunnel(
    table: NatView,
    dns: Option<DnsView>,
    remote: RemoteView,
    syn: TcpPacketView,
    data: TcpPacketView,
    answer: Seq<u8>,
)
    requires
        syn.flags.syn,
        !syn.flags.ack,
        forward::key_of(data) == forward::key_of(syn),
        !data.flags.syn,
        !data.flags.fin,
        !data.flags.rst,
        data.payload.len() > 0,
        answer.len() > 0,
    ensures
        ({
            let id = table.next_id;
            let key = forward::key_of(syn);
            let asked = forward::outbound_tcp(table, syn);
            let linked = remote.with_connection(id);
            let up = forward::remote_message(
                asked.table,
                dns,
                RemoteMessageView::TcpConnected { id },
            );
            let sent = forward::outbound_tcp(up.table, data);
            let relayed = proxy::relay(id, RelayEventView::FromDestination(answer));
            let back = forward::remote_message(sent.table, dns, relayed.report[0]);
            &&& asked.actions[0] matches HostActionView::ToRemote(connect)
            &&& remote.action(connect) == (RemoteActionView::Connect {
                id,
                dst_ip: syn.dst_ip,
                dst_port: syn.dst_port,
            })
            &&& sent.actions.len() == 1
            &&& sent.actions[0] matches HostActionView::ToRemote(carry)
            &&& linked.action(carry) == (RemoteActionView::Deliver {
                id,
                slot: remote.next_slot,
                data: data.payload,
            })
            &&& proxy::relay(id, RelayEventView::FromHost(data.payload)).write == Some(
                data.payload,
            )
            &&& back.actions == seq![
                HostActionView::TcpToTun(
                    forward::to_app(
                        key,
                        1001,
                        nat_table::wrap_add(data.seq, data.payload.len() as int),
                        forward::flags_psh_ack(),
                        forward::WINDOW,
                        answer,
                    ),
                ),
            ]
        }),
{
    laws::law_handshake(table, syn, dns);
}

/// When an application closes its connection, the remote hangs up, and what the
/// relay then reports closes the connection towards the application.
pub proof fn law_close_goes_through_the_tunnel(
    table: NatView,
    dns: Option<DnsView>,
    remote: RemoteView,
    fin: TcpPacketView,
    id: u32,
)
    requires
        laws::connection_is(table, forward::key_of(fin), id, ConnectionState::Established),
        remote.connections.contains_key(id),
        fin.flags.fin,
        !fin.flags.rst,
        !fin.flags.syn,
    ensures
        ({
            let closing = forward::outbound_tcp(table, fin);
            let hung_up = proxy::relay(id, RelayEventView::HostHungUp);
            let closed = forward::remote_message(closing.table, dns, hung_up.report[0]);
            &&& closing.actions.last() matches HostActionView::ToRemote(msg)
            &&& remote.action(msg) == (RemoteActionView::HangUp { slot: remote.connections[id] })
            &&& hung_up.done
            &&& hung_up.report.len() == 1
            &&& closed.table.state(forward::key_of(fin)) == Some(ConnectionState::LastAck)
            &&& closed.actions.len() == 1
            &&& closed.actions[0] matches HostActionView::TcpToTun(tcp)
            &&& tcp.flags == forward::flags_fin_ack()
        }),
{
}

/// When the host stops, what it sends stops the remote.
pub proof fn law_host_stops_the_remote(host: session::HostView, remote: RemoteView)
    ensures
        host.stops().actions.last() matches HostActionView::ToRemote(msg) && !remote.event_after(
            RemoteEventView::Message(msg),
        ).running,
{
}

} // verus!
