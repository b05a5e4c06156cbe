//! What the main loop of the host does with each event.

use vstd::prelude::*;

use crate::addr::{IpAddr, SocketAddr};
use crate::host::dns::DnsView;
use crate::host::forward;
use crate::host::forward::HostActionView;
use crate::host::nat_laws;
use crate::host::session;
use crate::host::session::{HostEventView, HostView, Reaction};
use crate::packet;
use crate::packet::PacketView;
use crate::protocol::{HostMessageView, RemoteMessageView};

verus! {

/// A failure, the end of the connection to the remote, and the user each stop the host:
/// it tells the remote to shut down and keeps all that it knows.
pub proof fn law_what_stops_the_host(host: HostView, event: HostEventView)
    requires
        !(event is TunPacket),
        !(event is Message),
        !(event is DnsQuery),
    ensures
        !host.react(event).host.running,
        host.react(event).host.table == host.table,
        host.react(event).host.dns == host.dns,
        host.react(event).actions == seq![HostActionView::ToRemote(HostMessageView::Shutdown)],
{
}

/// Traffic changes nothing about whether the host runs.
pub proof fn law_traffic_keeps_the_host_as_it_runs(host: HostView, event: HostEventView)
    requires
        event is TunPacket || event is Message || event is DnsQuery,
    ensures
        host.react(event).host.running == host.running,
{
}

/// A packet is treated as what it says, with the table of the host; one that says
/// nothing that the host forwards is passed over. The DNS queries stay as they are.
pub proof fn law_packets_meet_the_table(host: HostView, data: Seq<u8>, seen: u128, now: u128)
    ensures
        ({
            let after = host.react(HostEventView::TunPacket { data, seen, now });
            &&& after.host.dns == host.dns
            &&& match packet::packet_says(data) {
                Ok(PacketView::Tcp(tcp)) => {
                    &&& after.host.table == forward::outbound_tcp(host.table, tcp).table
                    &&& after.actions == forward::outbound_tcp(host.table, tcp).actions
                },
                Ok(PacketView::Udp(udp)) => {
                    &&& after.host.table == forward::outbound_udp(host.table, udp, seen, now).table
                    &&& after.actions == forward::outbound_udp(host.table, udp, seen, now).actions
                },
                _ => {
                    &&& after.host.table == host.table
                    &&& after.actions.len() == 0
                },
            }
        }),
{
}

/// A message is met with the table and the waiting DNS queries of the host.
pub proof fn law_messages_meet_the_table(host: HostView, msg: RemoteMessageView)
    ensures
        ({
            let after = host.react(HostEventView::Message(msg));
            &&& after.host.table == forward::remote_message(host.table, host.dns, msg).table
            &&& after.actions == forward::remote_message(host.table, host.dns, msg).actions
            &&& after.host.dns == forward::dns_after(host.dns, msg)
        }),
{
}

/// A DNS query of a local client goes to the remote as it is, for the DNS server, under
/// the next ID, and the client waits under that ID; those who wait already go on
/// waiting. Without a DNS server it is dropped. The table stays as it is.
pub proof fn law_queries_go_to_the_server(host: HostView, data: Seq<u8>, sender: SocketAddr)
    ensures
        ({
            let after = host.react(HostEventView::DnsQuery { data, sender });
            &&& after.host.table == host.table
            &&& host.dns is None ==> after.host.dns is None && after.actions.len() == 0
            &&& host.dns matches Some(state) ==> {
                &&& after.actions == seq![
                    HostActionView::ToRemote(
                        HostMessageView::DnsQuery {
                            id: state.next_id,
                            server: state.server,
                            data,
                        },
                    ),
                ]
                &&& after.host.dns matches Some(later) && {
                    &&& later.server == state.server
                    &&& later.pending.get(state.next_id) == Some(sender)
                    &&& nat_laws::congruent(later.next_id as int, state.next_id + 1)
                    &&& forall|other: u32|
                        other != state.next_id ==> #[trigger] later.pending.get(other)
                            == state.pending.get(other)
                }
            }
        }),
{
}

/// A query that could not be sent is waited for no more; nothing else changes.
pub proof fn law_forgotten_queries_are_gone(state: DnsView, id: u32)
    ensures
        !state.forget(id).pending.contains_key(id),
        state.forget(id).server == state.server,
        state.forget(id).next_id == state.next_id,
        forall|other: u32|
            other != id ==> #[trigger] state.forget(id).pending.get(other) == state.pending.get(
                other,
            ),
{
}

/// The DNS server stays the one that the host was started with.
pub proof fn law_the_dns_server_stays(host: HostView, events: Seq<HostEventView>, server: IpAddr)
    requires
        host.dns matches Some(state) && state.server == server,
    ensures
        session::run(host, events).host.dns matches Some(state) && state.server == server,
    decreases events.len(),
{
    if events.len() > 0 {
        law_the_dns_server_stays(host, events.drop_last(), server);
    }
}

/// Without a DNS server there is none later.
pub proof fn law_no_dns_server_comes_up(host: HostView, events: Seq<HostEventView>)
    requires
        host.dns is None,
    ensures
        session::run(host, events).host.dns is None,
    decreases events.len(),
{
    if events.len() > 0 {
        law_no_dns_server_comes_up(host, events.drop_last());
    }
}

/// While the host runs, it reacts to the next event, and its actions come behind the
/// earlier ones; once it has stopped, nothing more happens.
pub proof fn law_events_are_met_in_order(
    host: HostView,
    events: Seq<HostEventView>,
    event: HostEventView,
)
    ensures
        ({
            let before = session::run(host, events);
            let after = session::run(host, events.push(event));
            if before.host.running {
                &&& after.host == before.host.react(event).host
                &&& after.actions == before.actions + before.host.react(event).actions
            } else {
                after == before
            }
        }),
        session::run(host, seq![]) == (Reaction { host, actions: seq![] }),
{
    assert(events.push(event).drop_last() =~= events);
}

/// The host runs for as long as nothing but traffic comes.
pub proof fn law_the_host_runs_with_traffic(host: HostView, events: Seq<HostEventView>)
    requires
        host.running,
    ensures
        session::run(host, events).host.running <==> forall|i: int|
            0 <= i < events.len() ==> is_traffic(#[trigger] events[i]),
    decreases events.len(),
{
    if events.len() > 0 {
        let earlier = events.drop_last();
        law_the_host_runs_with_traffic(host, earlier);
        let last = events[events.len() - 1];
        if !session::run(host, earlier).host.running {
            let k = choose|k: int| 0 <= k < earlier.len() && !is_traffic(#[trigger] earlier[k]);
            assert(events[k] == earlier[k]);
        } else {
            assert forall|i: int| 0 <= i < earlier.len() implies is_traffic(
                #[trigger] events[i],
            ) by {
                assert(events[i] == earlier[i]);
            }
            assert(session::run(host, events).host.running <==> is_traffic(last));
        }
    }
}

/// Whether an event is traffic: a packet, a message or a DNS query.
pub open spec fn is_traffic(event: HostEventView) -> bool {
    event is TunPacket || event is Message || event is DnsQuery
}

} // verus!
