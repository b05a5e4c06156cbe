//! The main loop of the host: it waits for the remote to be ready, then reacts to
//! one event after the other until it stops.

use vstd::prelude::*;

use crate::addr::{IpAddr, SocketAddr};
use crate::host::dns;
use crate::host::dns::{DnsState, DnsView};
use crate::host::forward;
use crate::host::forward::{
    handle_remote_message, handle_tun_packet, HostAction, HostActionView, HostStep,
};
use crate::host::laws;
use crate::host::nat_table;
use crate::host::nat_table::{NatTable, NatView, TcpKey};
use crate::packet;
use crate::packet::{PacketView, UdpPacketView};
use crate::protocol::{HostMessage, HostMessageView, RemoteMessage, RemoteMessageView};

verus! {

/// Why the loop did not start.
#[derive(Debug)]
pub enum ReadyError {
    /// The first message was another one.
    Unexpected(RemoteMessage),
    /// The remote disconnected before it was ready.
    Disconnected,
}

/// What the host can meet with while its loop runs.
#[derive(Debug)]
pub enum HostEvent {
    /// A packet was read from the TUN interface.
    TunPacket(Vec<u8>),
    /// The TUN interface could not be read.
    TunReadFailed,
    /// The TUN interface could not be written.
    TunWriteFailed,
    /// A message came from the remote.
    Message(RemoteMessage),
    /// The remote disconnected.
    RemoteDisconnected,
    /// No message could be read from the remote.
    RemoteReadFailed,
    /// A message could not be written to the remote.
    RemoteWriteFailed,
    /// A local client sent a DNS query.
    DnsQuery { data: Vec<u8>, sender: SocketAddr },
    /// The user asked to quit.
    Interrupt,
}

/// What a `HostEvent` says; a packet comes with the times at which it is noted and
/// stale mappings are removed.
#[verifier::ext_equal]
pub enum HostEventView {
    TunPacket { data: Seq<u8>, seen: u128, now: u128 },
    TunReadFailed,
    TunWriteFailed,
    Message(RemoteMessageView),
    RemoteDisconnected,
    RemoteReadFailed,
    RemoteWriteFailed,
    DnsQuery { data: Seq<u8>, sender: SocketAddr },
    Interrupt,
}

impl HostEvent {
    /// What the event says, at these times.
    pub open spec fn at(self, seen: u128, now: u128) -> HostEventView {
        match self {
            HostEvent::TunPacket(data) => HostEventView::TunPacket { data: data@, seen, now },
            HostEvent::TunReadFailed => HostEventView::TunReadFailed,
            HostEvent::TunWriteFailed => HostEventView::TunWriteFailed,
            HostEvent::Message(msg) => HostEventView::Message(msg@),
            HostEvent::RemoteDisconnected => HostEventView::RemoteDisconnected,
            HostEvent::RemoteReadFailed => HostEventView::RemoteReadFailed,
            HostEvent::RemoteWriteFailed => HostEventView::RemoteWriteFailed,
            HostEvent::DnsQuery { data, sender } => HostEventView::DnsQuery { data: data@, sender },
            HostEvent::Interrupt => HostEventView::Interrupt,
        }
    }
}

/// The state of the host as a value.
#[verifier::ext_equal]
pub struct HostView {
    pub table: NatView,
    pub dns: Option<DnsView>,
    pub running: bool,
}

/// The state of the host after an event, and the actions that it calls for.
#[verifier::ext_equal]
pub struct Reaction {
    pub host: HostView,
    pub actions: Seq<HostActionView>,
}

impl HostView {
    /// The host goes on with this table, and does these things.
    pub open spec fn goes_on(self, step: HostStep) -> Reaction {
        Reaction { host: HostView { table: step.table, ..self }, actions: step.actions }
    }

    /// The host stops, and tells the remote to shut down.
    pub open spec fn stops(self) -> Reaction {
        Reaction {
            host: HostView { running: false, ..self },
            actions: seq![HostActionView::ToRemote(HostMessageView::Shutdown)],
        }
    }

    /// What an event calls for. A packet that cannot be parsed is passed over.
    pub open spec fn react(self, event: HostEventView) -> Reaction {
        match event {
            HostEventView::TunPacket { data, seen, now } => match forward::tun_packet(
                self.table,
                data,
                seen,
                now,
            ) {
                Ok(step) => self.goes_on(step),
                Err(_) => self.goes_on(forward::ignored(self.table)),
            },
            HostEventView::Message(msg) => HostView {
                dns: forward::dns_after(self.dns, msg),
                ..self
            }.goes_on(forward::remote_message(self.table, self.dns, msg)),
            HostEventView::DnsQuery { data, sender } => match self.dns {
                Some(state) => Reaction {
                    host: HostView { dns: Some(state.query(sender)), ..self },
                    actions: seq![HostActionView::ToRemote(state.question(data))],
                },
                None => self.goes_on(forward::ignored(self.table)),
            },
            HostEventView::TunReadFailed
            | HostEventView::TunWriteFailed
            | HostEventView::RemoteDisconnected
            | HostEventView::RemoteReadFailed
            | HostEventView::RemoteWriteFailed
            | HostEventView::Interrupt => self.stops(),
        }
    }
}

/// The state of the host while its loop runs.
pub struct HostProxy {
    pub table: NatTable,
    pub dns: Option<DnsState>,
    pub running: bool,
}

impl View for HostProxy {
    type V = HostView;

    open spec fn view(&self) -> HostView {
        HostView {
            table: self.table@,
            dns: forward::dns_view(self.dns),
            running: self.running,
        }
    }
}

/// Whether the remote is ready, going by its first message.
pub fn check_ready(first: Option<RemoteMessage>) -> (r: Result<(), ReadyError>)
    ensures
        match first {
            Some(RemoteMessage::Ready) => r is Ok,
            Some(other) => r == Err::<(), ReadyError>(ReadyError::Unexpected(other)),
            None => r == Err::<(), ReadyError>(ReadyError::Disconnected),
        },
{
    match first {
        Some(RemoteMessage::Ready) => Ok(()),
        Some(other) => Err(ReadyError::Unexpected(other)),
        None => Err(ReadyError::Disconnected),
    }
}

impl HostProxy {
    /// The host once the remote is ready. With a DNS server, queries of local
    /// clients are forwarded to it.
    pub fn new(dns_server: Option<IpAddr>) -> (r: HostProxy)
        ensures
            r@.table == NatView::empty(),
            r@.running,
            match dns_server {
                Some(server) => r@.dns == Some(
                    DnsView { server, pending: Map::empty(), next_id: 0 },
                ),
                None => r@.dns is None,
            },
    {
        let dns: Option<DnsState> = match dns_server {
            Some(server) => Some(DnsState::new(server)),
            None => None,
        };
        HostProxy { table: NatTable::new(), dns, running: true }
    }

    /// React to an event. A packet is seen, and stale mappings are looked for, at the
    /// time that the clock says; whatever that is, an answer to a datagram finds its
    /// way back.
    pub fn handle_event(&mut self, event: HostEvent) -> (actions: Vec<HostAction>)
        requires
            event matches HostEvent::TunPacket(data) ==> packet::lengths_agree(data@),
        ensures
            exists|now: u128|
                (Reaction { host: final(self)@, actions: forward::said(actions@) }) == old(
                    self,
                )@.react(#[trigger] event.at(now, now)),
            event matches HostEvent::TunPacket(data) ==> (packet::packet_says(data@) matches Ok(
                PacketView::Udp(udp),
            ) ==> forward::answer_returns(final(self)@.table, udp)),
    {
        let ghost before = self@;
        let ghost timeless = event.at(0, 0);
        match event {
            HostEvent::TunPacket(data) => {
                let ghost table = self.table@;
                let r = handle_tun_packet(data.as_slice(), &mut self.table);
                let ghost now = choose|now: u128|
                    match #[trigger] forward::tun_packet(table, data@, now, now) {
                        Ok(step) => (r matches Ok(actions) && (HostStep {
                            table: self.table@,
                            actions: forward::said(actions@),
                        }) == step),
                        Err(fault) => (r matches Err(e) && e@ == fault && self.table@ == table),
                    };
                let actions: Vec<HostAction> = match r {
                    Ok(actions) => actions,
                    Err(_) => Vec::new(),
                };
                proof {
                    let stamped = event.at(now, now);
                    assert(before.react(stamped).actions =~= forward::said(actions@));
                    assert(before.react(stamped) =~= (Reaction {
                        host: self@,
                        actions: forward::said(actions@),
                    }));
                }
                actions
            },
            HostEvent::Message(msg) => {
                let actions: Vec<HostAction> = handle_remote_message(
                    msg,
                    &mut self.table,
                    &mut self.dns,
                );
                assert(before.react(timeless) =~= (Reaction {
                    host: self@,
                    actions: forward::said(actions@),
                }));
                actions
            },
            HostEvent::DnsQuery { data, sender } => {
                let mut actions: Vec<HostAction> = Vec::new();
                if let Some(state) = &mut self.dns {
                    actions.push(HostAction::ToRemote(state.handle_query(data.as_slice(), sender)));
                }
                assert(before.react(timeless) =~= (Reaction {
                    host: self@,
                    actions: forward::said(actions@),
                }));
                actions
            },
            HostEvent::TunReadFailed
            | HostEvent::TunWriteFailed
            | HostEvent::RemoteDisconnected
            | HostEvent::RemoteReadFailed
            | HostEvent::RemoteWriteFailed
            | HostEvent::Interrupt => {
                self.running = false;
                let mut actions: Vec<HostAction> = Vec::new();
                // Send shutdown to remote
                actions.push(HostAction::ToRemote(HostMessage::Shutdown));
                assert(before.react(timeless) =~= (Reaction {
                    host: self@,
                    actions: forward::said(actions@),
                }));
                actions
            },
        }
    }
}

/// The message that tells the remote to shut down.
pub open spec fn shutdown() -> HostActionView {
    HostActionView::ToRemote(HostMessageView::Shutdown)
}

/// The host after these events, and all actions up to then. Events that come after
/// it has stopped find nobody.
pub open spec fn run(host: HostView, events: Seq<HostEventView>) -> Reaction
    decreases events.len(),
{
    if events.len() == 0 {
        Reaction { host, actions: seq![] }
    } else {
        let before = run(host, events.drop_last());
        if before.host.running {
            let last = before.host.react(events.last());
            Reaction { host: last.host, actions: before.actions + last.actions }
        } else {
            before
        }
    }
}

/// The host tells the remote to shut down when it stops, as its last action, and at
/// no other time.
pub proof fn law_shutdown_is_the_last_action(host: HostView, events: Seq<HostEventView>)
    requires
        host.running,
    ensures
        ({
            let end = run(host, events);
            if end.host.running {
                !end.actions.contains(shutdown())
            } else {
                &&& end.actions.len() > 0
                &&& end.actions.last() == shutdown()
                &&& !end.actions.drop_last().contains(shutdown())
            }
        }),
    decreases events.len(),
{
    if events.len() > 0 {
        let before = run(host, events.drop_last());
        law_shutdown_is_the_last_action(host, events.drop_last());
        if before.host.running {
            let last = before.host.react(events.last());
            let end = run(host, events);
            assert(end.actions == before.actions + last.actions);
            if last.host.running {
                lemma_no_shutdown_while_running(before.host, events.last());
                assert forall|i: int| 0 <= i < end.actions.len() implies end.actions[i]
                    != shutdown() by {
                    if i < before.actions.len() {
                        assert(before.actions.contains(before.actions[i]));
                    } else {
                        assert(last.actions.contains(last.actions[i - before.actions.len()]));
                    }
                }
            } else {
                assert(last.actions.len() == 1);
                assert(end.actions.drop_last() =~= before.actions);
            }
        }
    }
}

proof fn lemma_no_shutdown_while_running(host: HostView, event: HostEventView)
    requires
        host.running,
        host.react(event).host.running,
    ensures
        !host.react(event).actions.contains(shutdown()),
{
}

/// Only a failure, the end of the connection or the user stops the host: no packet,
/// message or query does.
pub proof fn law_traffic_does_not_stop_the_host(host: HostView, event: HostEventView)
    requires
        host.running,
        event is TunPacket || event is Message || event is DnsQuery,
    ensures
        host.react(event).host.running,
{
}

/// In every state that a host gets into, each connection and each UDP mapping has
/// addresses of one family.
pub proof fn law_every_state_has_one_family(host: HostView, events: Seq<HostEventView>)
    requires
        host.table.one_family(),
    ensures
        NatView::empty().one_family(),
        run(host, events).host.table.one_family(),
    decreases events.len(),
{
    if events.len() > 0 {
        law_every_state_has_one_family(host, events.drop_last());
        let before = run(host, events.drop_last()).host;
        match events.last() {
            HostEventView::TunPacket { data, seen, now } => {
                laws::law_parsed_packet_has_one_family(data);
                match packet::packet_says(data) {
                    Ok(PacketView::Tcp(tcp)) => laws::law_outbound_tcp_keeps_families(
                        before.table,
                        tcp,
                    ),
                    Ok(PacketView::Udp(udp)) => laws::law_outbound_udp_keeps_families(
                        before.table,
                        udp,
                        seen,
                        now,
                    ),
                    _ => {},
                }
            },
            HostEventView::Message(msg) => laws::law_remote_message_keeps_families(
                before.table,
                before.dns,
                msg,
            ),
            _ => {},
        }
    }
}

/// Every packet that a host writes can be built, if the payload that a message
/// carries fits into one packet.
pub proof fn law_every_packet_can_be_built(host: HostView, event: HostEventView)
    requires
        host.table.one_family(),
        event matches HostEventView::Message(msg) ==> laws::payload_fits(host.table, msg),
    ensures
        laws::all_buildable(host.react(event).actions),
{
    match event {
        HostEventView::TunPacket { data, seen, now } => {
            laws::law_parsed_packet_has_one_family(data);
            match packet::packet_says(data) {
                Ok(PacketView::Tcp(tcp)) => laws::law_outbound_tcp_keeps_families(host.table, tcp),
                Ok(PacketView::Udp(udp)) => laws::law_outbound_udp_keeps_families(
                    host.table,
                    udp,
                    seen,
                    now,
                ),
                _ => {},
            }
        },
        HostEventView::Message(msg) => laws::law_remote_message_keeps_families(
            host.table,
            host.dns,
            msg,
        ),
        _ => {},
    }
}

/// Every connection has an ID that was given out.
spec fn ids_given_out(table: NatView) -> bool {
    forall|key: TcpKey| #[trigger]
        table.flows.contains_key(key) ==> table.flows[key].id < table.next_id
}

#[verifier::spinoff_prover]
proof fn lemma_react_keeps_ids(host: HostView, event: HostEventView)
    requires
        host.table.linked(),
        ids_given_out(host.table),
        host.table.next_id < u32::MAX,
    ensures
        host.react(event).host.table.linked(),
        ids_given_out(host.react(event).host.table),
        host.table.next_id <= host.react(event).host.table.next_id <= host.table.next_id + 1,
{
}

/// In every state that a new host gets into, each connection is found by its ID, as
/// long as the counter of IDs has not come round.
pub proof fn law_every_connection_is_found_by_its_id(host: HostView, events: Seq<HostEventView>)
    requires
        host.table == NatView::empty(),
        events.len() < 0xffff_ffff,
    ensures
        run(host, events).host.table.linked(),
{
    lemma_run_keeps_ids(host, events);
}

proof fn lemma_run_keeps_ids(host: HostView, events: Seq<HostEventView>)
    requires
        host.table == NatView::empty(),
        events.len() < 0xffff_ffff,
    ensures
        run(host, events).host.table.linked(),
        ids_given_out(run(host, events).host.table),
        run(host, events).host.table.next_id <= 1 + events.len(),
    decreases events.len(),
{
    if events.len() > 0 {
        lemma_run_keeps_ids(host, events.drop_last());
        let before = run(host, events.drop_last()).host;
        if before.running {
            lemma_react_keeps_ids(before, events.last());
        }
    }
}

/// Whether an event leaves alone the way back for `udp`, seen at `seen`: where it is
/// a datagram, the way back is still fresh when stale mappings are removed, and the
/// datagram does not take the way back over for another sender.
pub open spec fn spares(event: HostEventView, udp: UdpPacketView, seen: u128) -> bool {
    event matches HostEventView::TunPacket { data, seen: later, now } ==> (packet::packet_says(data)
        matches Ok(PacketView::Udp(other)) ==> {
        &&& nat_table::fresh(seen, now)
        &&& forward::return_key(other) == forward::return_key(udp) ==> other.src_ip == udp.src_ip
            && later >= seen
    })
}

/// Whether an answer to `udp`, seen at `seen` or later, goes back to its sender.
spec fn way_back(table: NatView, udp: UdpPacketView, seen: u128) -> bool {
    table.udp.get(forward::return_key(udp)) matches Some(mapping) && mapping.src_ip == udp.src_ip
        && mapping.last_activity >= seen
}

proof fn lemma_way_back_stays(host: HostView, event: HostEventView, udp: UdpPacketView, seen: u128)
    requires
        way_back(host.table, udp, seen),
        spares(event, udp, seen),
    ensures
        way_back(host.react(event).host.table, udp, seen),
{
    match event {
        HostEventView::Message(msg) => {
            laws::law_messages_leave_udp_alone(host.table, host.dns, msg);
        },
        HostEventView::TunPacket { data, .. } => {
            if let Ok(PacketView::Tcp(tcp)) = packet::packet_says(data) {
                laws::law_segments_leave_udp_alone(host.table, tcp);
            }
        },
        _ => {},
    }
}

proof fn lemma_way_back_stays_over(
    host: HostView,
    events: Seq<HostEventView>,
    udp: UdpPacketView,
    seen: u128,
)
    requires
        way_back(host.table, udp, seen),
        forall|k: int| 0 <= k < events.len() ==> spares(#[trigger] events[k], udp, seen),
    ensures
        way_back(run(host, events).host.table, udp, seen),
    decreases events.len(),
{
    if events.len() > 0 {
        lemma_way_back_stays_over(host, events.drop_last(), udp, seen);
        let before = run(host, events.drop_last()).host;
        if before.running {
            assert(spares(events[events.len() - 1], udp, seen));
            lemma_way_back_stays(before, events.last(), udp, seen);
        }
    }
}

/// An answer to a datagram reaches the application that sent the datagram, whatever
/// segments, messages, queries and other datagrams come in between, as long as the
/// mapping is fresh whenever stale ones are removed and no other sender takes it over.
pub proof fn law_udp_answer_returns_later(
    host: HostView,
    udp: UdpPacketView,
    seen: u128,
    now: u128,
    events: Seq<HostEventView>,
    answer: Seq<u8>,
)
    requires
        nat_table::fresh(seen, now),
        forall|k: int| 0 <= k < events.len() ==> spares(#[trigger] events[k], udp, seen),
    ensures
        ({
            let sent = HostView {
                table: forward::outbound_udp(host.table, udp, seen, now).table,
                ..host
            };
            let later = run(sent, events).host;
            later.react(
                HostEventView::Message(
                    RemoteMessageView::UdpResponse {
                        dst_port: udp.src_port,
                        src_ip: udp.dst_ip,
                        src_port: udp.dst_port,
                        data: answer,
                    },
                ),
            ).actions == seq![
                HostActionView::UdpToTun(
                    UdpPacketView {
                        src_ip: udp.dst_ip,
                        dst_ip: udp.src_ip,
                        src_port: udp.dst_port,
                        dst_port: udp.src_port,
                        payload: answer,
                    },
                ),
            ]
        }),
{
    let sent = HostView {
        table: forward::outbound_udp(host.table, udp, seen, now).table,
        ..host
    };
    lemma_way_back_stays_over(sent, events, udp, seen);
}

/// How many of the events are DNS queries.
pub open spec fn queries_in(events: Seq<HostEventView>) -> nat
    decreases events.len(),
{
    if events.len() == 0 {
        0
    } else {
        queries_in(events.drop_last()) + (if events.last() is DnsQuery {
            1nat
        } else {
            0
        })
    }
}

/// Whether an event is the answer to the DNS query with this ID.
pub open spec fn answers(event: HostEventView, id: u32) -> bool {
    event matches HostEventView::Message(RemoteMessageView::DnsResponse { id: answered, .. })
        && answered == id
}

/// Whether this client waits under this ID, which is not given out again to one of the
/// next `n` queries.
spec fn waits(dns: Option<DnsView>, id: u32, client: SocketAddr, n: int) -> bool {
    dns matches Some(state) && state.pending.get(id) == Some(client) && n <= dns::queries_before(
        state.next_id,
        id,
    )
}

/// The pending queries after an event.
spec fn dns_next(dns: Option<DnsView>, event: HostEventView) -> Option<DnsView> {
    match (dns, event) {
        (Some(state), HostEventView::DnsQuery { sender, .. }) => Some(state.query(sender)),
        (_, HostEventView::Message(msg)) => forward::dns_after(dns, msg),
        _ => dns,
    }
}

proof fn lemma_dns_next(host: HostView, event: HostEventView)
    ensures
        host.react(event).host.dns == dns_next(host.dns, event),
{
}

/// A query takes up one ID.
proof fn lemma_query_waits(state: DnsView, id: u32, other: SocketAddr)
    requires
        dns::queries_before(state.next_id, id) > 0,
    ensures
        state.next_id != id,
        dns::queries_before(state.query(other).next_id, id) == dns::queries_before(
            state.next_id,
            id,
        ) - 1,
{
}

proof fn lemma_next_waits(
    dns: Option<DnsView>,
    event: HostEventView,
    id: u32,
    client: SocketAddr,
    n: int,
)
    requires
        waits(dns, id, client, n),
        !answers(event, id),
        event is DnsQuery ==> n > 0,
    ensures
        waits(
            dns_next(dns, event),
            id,
            client,
            n - (if event is DnsQuery {
                1int
            } else {
                0
            }),
        ),
{
    if let HostEventView::DnsQuery { sender, .. } = event {
        lemma_query_waits(dns->0, id, sender);
    }
}

proof fn lemma_client_waits(
    host: HostView,
    events: Seq<HostEventView>,
    id: u32,
    client: SocketAddr,
    n: int,
)
    requires
        waits(host.dns, id, client, n),
        queries_in(events) <= n,
        forall|k: int| 0 <= k < events.len() ==> !answers(#[trigger] events[k], id),
    ensures
        waits(run(host, events).host.dns, id, client, n - queries_in(events)),
    decreases events.len(),
{
    if events.len() > 0 {
        let earlier = queries_in(events.drop_last());
        let before = run(host, events.drop_last()).host;
        lemma_client_waits(host, events.drop_last(), id, client, n);
        assert(!answers(events[events.len() - 1], id));
        if before.running {
            lemma_dns_next(before, events.last());
            lemma_next_waits(before.dns, events.last(), id, client, n - earlier);
        }
    }
}

/// A DNS answer reaches the client whose query it answers, whatever packets, messages,
/// answers to other queries and other queries come in between, as long as the ID of
/// the query has not come up again.
pub proof fn law_dns_answer_returns_later(
    host: HostView,
    state: DnsView,
    query: Seq<u8>,
    sender: SocketAddr,
    events: Seq<HostEventView>,
    answer: Seq<u8>,
)
    requires
        host.dns == Some(state),
        1 + queries_in(events) < 0x1_0000_0000,
        forall|k: int| 0 <= k < events.len() ==> !answers(#[trigger] events[k], state.next_id),
    ensures
        ({
            let asked = host.react(HostEventView::DnsQuery { data: query, sender });
            let later = run(asked.host, events).host;
            let reply = RemoteMessageView::DnsResponse { id: state.next_id, data: answer };
            let answered = later.react(HostEventView::Message(reply));
            &&& answered.actions == seq![
                HostActionView::DnsReply { client: sender, data: answer },
            ]
            &&& answered.host.react(HostEventView::Message(reply)).actions
                == Seq::<HostActionView>::empty()
        }),
{
    let asked = host.react(HostEventView::DnsQuery { data: query, sender });
    lemma_dns_next(host, HostEventView::DnsQuery { data: query, sender });
    assert(waits(asked.host.dns, state.next_id, sender, 0xffff_ffff));
    lemma_client_waits(asked.host, events, state.next_id, sender, 0xffff_ffff);
    lemma_answered(run(asked.host, events).host, state.next_id, sender, answer);
}

/// An answer goes to the client that waits for it, once.
proof fn lemma_answered(host: HostView, id: u32, client: SocketAddr, answer: Seq<u8>)
    requires
        host.dns matches Some(state) && state.pending.get(id) == Some(client),
    ensures
        ({
            let reply = RemoteMessageView::DnsResponse { id, data: answer };
            let answered = host.react(HostEventView::Message(reply));
            &&& answered.actions == seq![HostActionView::DnsReply { client, data: answer }]
            &&& answered.host.react(HostEventView::Message(reply)).actions
                == Seq::<HostActionView>::empty()
        }),
{
}

} // verus!
