//! What the remote does in every state, and over every run.

use vstd::prelude::*;

use crate::addr::IpAddr;
use crate::protocol::{HostMessageView, RemoteMessageView};
use crate::remote::proxy;
use crate::remote::proxy::RelayEventView;
use crate::remote::{RemoteActionView, RemoteEventView, RemoteView};

verus! {

/// What can happen to the state of the remote.
pub enum RemoteChange {
    /// The main loop met with an event.
    Event(RemoteEventView),
    /// The connection with this ID was made.
    Made(u32),
    /// The connection with this ID is done, or could not be handed data.
    Gone(u32),
}

/// Whether a change makes or takes away the connection with this ID.
pub open spec fn concerns(change: RemoteChange, id: u32) -> bool {
    ||| change == RemoteChange::Made(id)
    ||| change == RemoteChange::Gone(id)
    ||| change == RemoteChange::Event(RemoteEventView::Message(HostMessageView::TcpClose { id }))
}

/// The state after a change.
pub open spec fn changed(state: RemoteView, change: RemoteChange) -> RemoteView {
    match change {
        RemoteChange::Event(event) => state.event_after(event),
        RemoteChange::Made(id) => state.with_connection(id),
        RemoteChange::Gone(id) => state.without(id),
    }
}

/// The state after some changes, one after the other.
pub open spec fn changed_by(state: RemoteView, changes: Seq<RemoteChange>) -> RemoteView
    decreases changes.len(),
{
    if changes.len() == 0 {
        state
    } else {
        changed(changed_by(state, changes.drop_last()), changes.last())
    }
}

/// How many connections some changes make.
pub open spec fn made_by(changes: Seq<RemoteChange>) -> int
    decreases changes.len(),
{
    if changes.len() == 0 {
        0
    } else {
        made_by(changes.drop_last()) + if changes.last() is Made {
            1int
        } else {
            0
        }
    }
}

/// In every state, data for an open connection goes to the slot that is kept under its
/// ID, as it is, and changes nothing.
pub proof fn law_data_goes_to_the_slot_of_its_id(
    state: RemoteView,
    id: u32,
    slot: u64,
    data: Seq<u8>,
)
    requires
        state.connections.get(id) == Some(slot),
    ensures
        state.action(HostMessageView::TcpData { id, data }) == (RemoteActionView::Deliver {
            id,
            slot,
            data,
        }),
        state.after(HostMessageView::TcpData { id, data }) == state,
{
}

/// In every state, closing an open connection hangs up on the slot that is kept under
/// its ID, and takes that connection away and nothing else.
pub proof fn law_close_hangs_up_on_the_slot_of_its_id(state: RemoteView, id: u32, slot: u64)
    requires
        state.connections.get(id) == Some(slot),
    ensures
        state.action(HostMessageView::TcpClose { id }) == (RemoteActionView::HangUp { slot }),
        ({
            let after = state.after(HostMessageView::TcpClose { id });
            &&& !after.connections.contains_key(id)
            &&& after.next_slot == state.next_slot
            &&& after.running == state.running
            &&& forall|other: u32|
                other != id ==> #[trigger] after.connections.get(other) == state.connections.get(
                    other,
                )
        }),
{
}

/// A new connection gets the next slot, whatever stood under its ID, and the slot after
/// it is the next; one that is gone leaves nothing under its ID. Nothing else changes.
pub proof fn law_connections_come_and_go_alone(state: RemoteView, id: u32)
    ensures
        ({
            let up = state.with_connection(id);
            &&& up.connections.get(id) == Some(state.next_slot)
            &&& (up.next_slot - state.next_slot - 1) % 0x1_0000_0000_0000_0000 == 0
            &&& up.running == state.running
            &&& forall|other: u32|
                other != id ==> #[trigger] up.connections.get(other) == state.connections.get(other)
        }),
        ({
            let down = state.without(id);
            &&& !down.connections.contains_key(id)
            &&& down.next_slot == state.next_slot
            &&& down.running == state.running
            &&& forall|other: u32|
                other != id ==> #[trigger] down.connections.get(other) == state.connections.get(
                    other,
                )
        }),
        !RemoteView::start().connections.contains_key(id),
        RemoteView::start().running,
{
}

/// What the other messages call for: each is carried out with what it says, whatever
/// connections there are.
pub proof fn law_requests_are_carried_out_as_they_are(
    state: RemoteView,
    id: u32,
    ip: IpAddr,
    port: u16,
    src_port: u16,
    data: Seq<u8>,
)
    ensures
        state.action(HostMessageView::TcpConnect { id, dst_ip: ip, dst_port: port }) == (
        RemoteActionView::Connect { id, dst_ip: ip, dst_port: port }),
        state.action(HostMessageView::UdpDatagram { src_port, dst_ip: ip, dst_port: port, data })
            == (RemoteActionView::SendUdp { src_port, dst_ip: ip, dst_port: port, data }),
        state.action(HostMessageView::DnsQuery { id, server: ip, data }) == (
        RemoteActionView::SendDns { id, server: ip, data }),
        state.action(HostMessageView::Shutdown) == RemoteActionView::Nothing,
        state.after(HostMessageView::TcpConnect { id, dst_ip: ip, dst_port: port }) == state,
        state.after(HostMessageView::UdpDatagram { src_port, dst_ip: ip, dst_port: port, data })
            == state,
        state.after(HostMessageView::DnsQuery { id, server: ip, data }) == state,
{
}

/// An event of the main loop is answered as the message that it brings; without a
/// message there is nothing to do. A stop keeps the connections.
pub proof fn law_events_are_answered_as_their_messages(state: RemoteView, event: RemoteEventView)
    ensures
        match event {
            RemoteEventView::Message(msg) => {
                &&& state.event_action(event) == state.action(msg)
                &&& state.event_after(event) == state.after(msg)
            },
            _ => {
                &&& state.event_action(event) == RemoteActionView::Nothing
                &&& state.event_after(event).connections == state.connections
                &&& state.event_after(event).next_slot == state.next_slot
                &&& !state.event_after(event).running
            },
        },
        state.after(HostMessageView::Shutdown).connections == state.connections,
        state.after(HostMessageView::Shutdown).next_slot == state.next_slot,
{
}

/// Only what concerns a connection changes its slot.
pub proof fn law_a_connection_keeps_its_slot(
    state: RemoteView,
    changes: Seq<RemoteChange>,
    id: u32,
)
    requires
        forall|i: int| 0 <= i < changes.len() ==> !concerns(#[trigger] changes[i], id),
    ensures
        changed_by(state, changes).connections.get(id) == state.connections.get(id),
    decreases changes.len(),
{
    if changes.len() > 0 {
        let earlier = changes.drop_last();
        assert forall|i: int| 0 <= i < earlier.len() implies !concerns(
            #[trigger] earlier[i],
            id,
        ) by {
            assert(earlier[i] == changes[i]);
        }
        law_a_connection_keeps_its_slot(state, earlier, id);
        assert(!concerns(changes[changes.len() - 1], id));
    }
}

/// Data for a connection goes to the slot that the connection was given when it was
/// made, whatever was made, closed or lost since under other IDs.
pub proof fn law_data_goes_to_the_slot_that_was_given(
    state: RemoteView,
    changes: Seq<RemoteChange>,
    id: u32,
    data: Seq<u8>,
)
    requires
        forall|i: int| 0 <= i < changes.len() ==> !concerns(#[trigger] changes[i], id),
    ensures
        ({
            let later = changed_by(changed(state, RemoteChange::Made(id)), changes);
            &&& later.action(HostMessageView::TcpData { id, data }) == (RemoteActionView::Deliver {
                id,
                slot: state.next_slot,
                data,
            })
            &&& later.action(HostMessageView::TcpClose { id }) == (RemoteActionView::HangUp {
                slot: state.next_slot,
            })
        }),
{
    law_a_connection_keeps_its_slot(state.with_connection(id), changes, id);
}

/// Of two connections, each keeps getting its own data, whichever was made first.
pub proof fn law_two_connections_are_kept_apart(
    state: RemoteView,
    a: u32,
    b: u32,
    data: Seq<u8>,
)
    requires
        a != b,
    ensures
        ({
            let both = state.with_connection(a).with_connection(b);
            let second = state.with_connection(a).next_slot;
            &&& both.action(HostMessageView::TcpData { id: a, data }) == (
            RemoteActionView::Deliver { id: a, slot: state.next_slot, data })
            &&& both.action(HostMessageView::TcpData { id: b, data }) == (
            RemoteActionView::Deliver { id: b, slot: second, data })
            &&& second != state.next_slot
        }),
{
}

/// No two connections have the same slot, until the slots come round.
pub proof fn law_slots_differ(changes: Seq<RemoteChange>, a: u32, b: u32)
    requires
        made_by(changes) <= 0x1_0000_0000_0000_0000,
        a != b,
        changed_by(RemoteView::start(), changes).connections.contains_key(a),
        changed_by(RemoteView::start(), changes).connections.contains_key(b),
    ensures
        changed_by(RemoteView::start(), changes).connections[a] != changed_by(
            RemoteView::start(),
            changes,
        ).connections[b],
{
    lemma_slots_count_up(changes);
}

/// The state is that after `made` connections: each open connection has a slot below
/// `made`, and no two have the same.
spec fn counted(state: RemoteView, made: int) -> bool {
    &&& state.next_slot == made || (state.next_slot == 0 && made == 0x1_0000_0000_0000_0000)
    &&& forall|id: u32|
        #![trigger state.connections[id]]
        state.connections.contains_key(id) ==> state.connections[id] < made
    &&& forall|a: u32, b: u32|
        #![trigger state.connections[a], state.connections[b]]
        a != b && state.connections.contains_key(a) && state.connections.contains_key(b)
            ==> state.connections[a] != state.connections[b]
}

proof fn lemma_slots_count_up(changes: Seq<RemoteChange>)
    requires
        made_by(changes) <= 0x1_0000_0000_0000_0000,
    ensures
        counted(changed_by(RemoteView::start(), changes), made_by(changes)),
    decreases changes.len(),
{
    if changes.len() > 0 {
        lemma_slots_count_up(changes.drop_last());
        let before = changed_by(RemoteView::start(), changes.drop_last());
        let after = changed_by(RemoteView::start(), changes);
        assert(after == changed(before, changes.last()));
        assert forall|id: u32|
            #![trigger after.connections[id]]
            after.connections.contains_key(id) implies after.connections[id] < made_by(changes) by {
            if !concerns(changes.last(), id) {
                assert(after.connections[id] == before.connections[id]);
            }
        }
        assert forall|a: u32, b: u32|
            #![trigger after.connections[a], after.connections[b]]
            a != b && after.connections.contains_key(a) && after.connections.contains_key(
                b,
            ) implies after.connections[a] != after.connections[b] by {
            if !concerns(changes.last(), a) {
                assert(after.connections[a] == before.connections[a]);
            }
            if !concerns(changes.last(), b) {
                assert(after.connections[b] == before.connections[b]);
            }
        }
    }
}

/// The relay ends when the proxy does not run, when the host hung up, when a read, a
/// write or a report failed, and when the destination sent no bytes; at no other time.
pub proof fn law_when_the_relay_ends(id: u32, event: RelayEventView)
    ensures
        proxy::relay(id, event).done <==> (match event {
            RelayEventView::NotRunning => true,
            RelayEventView::HostHungUp => true,
            RelayEventView::WriteFailed(_) => true,
            RelayEventView::ReadFailed(_) => true,
            RelayEventView::ReportFailed => true,
            RelayEventView::FromDestination(data) => data.len() == 0,
            RelayEventView::FromHost(_) => false,
        }),
{
}

/// Data from the host, of any length, is written to the destination as it is; nothing
/// is reported, and the relay goes on.
pub proof fn law_data_from_the_host_is_written(id: u32, data: Seq<u8>)
    ensures
        proxy::relay(id, RelayEventView::FromHost(data)).write == Some(data),
        proxy::relay(id, RelayEventView::FromHost(data)).report.len() == 0,
        !proxy::relay(id, RelayEventView::FromHost(data)).done,
{
}

/// Data from the destination, of any length but none, is reported as it is under the ID
/// of the connection; nothing is written, and the relay goes on.
pub proof fn law_data_from_the_destination_is_reported(id: u32, data: Seq<u8>)
    requires
        data.len() > 0,
    ensures
        proxy::relay(id, RelayEventView::FromDestination(data)).report == seq![
            RemoteMessageView::TcpData { id, data },
        ],
        proxy::relay(id, RelayEventView::FromDestination(data)).write is None,
        !proxy::relay(id, RelayEventView::FromDestination(data)).done,
{
}

/// At its end the relay writes nothing. It reports that the connection is closed, and
/// before that the error, if a read or a write failed.
pub proof fn law_what_the_relay_reports_at_its_end(id: u32, event: RelayEventView)
    requires
        proxy::relay(id, event).done,
    ensures
        proxy::relay(id, event).write is None,
        match event {
            RelayEventView::WriteFailed(error) => proxy::relay(id, event).report == seq![
                RemoteMessageView::TcpError { id, error },
                RemoteMessageView::TcpClosed { id },
            ],
            RelayEventView::ReadFailed(error) => proxy::relay(id, event).report == seq![
                RemoteMessageView::TcpError { id, error },
                RemoteMessageView::TcpClosed { id },
            ],
            _ => proxy::relay(id, event).report == seq![RemoteMessageView::TcpClosed { id }],
        },
{
}

/// Whether an event is data: from the host, or some bytes from the destination.
pub open spec fn is_data(event: RelayEventView) -> bool {
    ||| event is FromHost
    ||| event matches RelayEventView::FromDestination(data) && data.len() > 0
}

/// A relay goes on for as long as data comes, however much, and no longer.
pub proof fn law_the_relay_goes_on_with_data(id: u32, events: Seq<RelayEventView>)
    ensures
        !proxy::relay_all(id, events).1 <==> forall|i: int|
            0 <= i < events.len() ==> is_data(#[trigger] events[i]),
    decreases events.len(),
{
    if events.len() > 0 {
        let earlier = events.drop_last();
        law_the_relay_goes_on_with_data(id, earlier);
        let last = events[events.len() - 1];
        if proxy::relay_all(id, earlier).1 {
            let k = choose|k: int| 0 <= k < earlier.len() && !is_data(#[trigger] earlier[k]);
            assert(events[k] == earlier[k]);
        } else {
            assert forall|i: int| 0 <= i < earlier.len() implies is_data(#[trigger] events[i]) by {
                assert(events[i] == earlier[i]);
            }
            assert(proxy::relay(id, last).done <==> !is_data(last));
        }
    }
}

/// An answer to a datagram goes to the port that the datagram came from, with the
/// address and port that it came from itself; an answer to a DNS query goes under the
/// ID of the query. Its data is passed on as it is.
pub proof fn law_answers_are_passed_on_as_they_are(
    port: u16,
    id: u32,
    answer: (IpAddr, u16, Vec<u8>),
)
    ensures
        proxy::udp_reply(port, answer) == (RemoteMessageView::UdpResponse {
            dst_port: port,
            src_ip: answer.0,
            src_port: answer.1,
            data: answer.2@,
        }),
        proxy::dns_reply(id, answer) == (RemoteMessageView::DnsResponse { id, data: answer.2@ }),
{
}

} // verus!
