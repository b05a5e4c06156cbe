//! The remote side: it makes the connections that the host asks for.

use vstd::prelude::*;

use dashmap::DashMap;

use crate::addr::IpAddr;
use crate::protocol::{HostMessage, HostMessageView, RemoteMessage, RemoteMessageView};
use crate::tables;

pub mod laws;
pub mod proxy;

verus! {

/// What the remote does with a message from the host.
#[derive(Debug)]
pub enum RemoteAction {
    /// Nothing.
    Nothing,
    /// Connect to an address.
    Connect { id: u32, dst_ip: IpAddr, dst_port: u16 },
    /// Hand data to the connection in a slot.
    Deliver { id: u32, slot: u64, data: Vec<u8> },
    /// Hang up on the connection in a slot.
    HangUp { slot: u64 },
    /// Send a datagram, and pass its answers on to this port of the host.
    SendUdp { src_port: u16, dst_ip: IpAddr, dst_port: u16, data: Vec<u8> },
    /// Send a DNS query to a server, and pass its answer on under this ID.
    SendDns { id: u32, server: IpAddr, data: Vec<u8> },
}

/// What a `RemoteAction` says.
#[verifier::ext_equal]
pub enum RemoteActionView {
    Nothing,
    Connect { id: u32, dst_ip: IpAddr, dst_port: u16 },
    Deliver { id: u32, slot: u64, data: Seq<u8> },
    HangUp { slot: u64 },
    SendUdp { src_port: u16, dst_ip: IpAddr, dst_port: u16, data: Seq<u8> },
    SendDns { id: u32, server: IpAddr, data: Seq<u8> },
}

impl View for RemoteAction {
    type V = RemoteActionView;

    open spec fn view(&self) -> RemoteActionView {
        match *self {
            RemoteAction::Nothing => RemoteActionView::Nothing,
            RemoteAction::Connect { id, dst_ip, dst_port } => RemoteActionView::Connect {
                id,
                dst_ip,
                dst_port,
            },
            RemoteAction::Deliver { id, slot, data } => RemoteActionView::Deliver {
                id,
                slot,
                data: data@,
            },
            RemoteAction::HangUp { slot } => RemoteActionView::HangUp { slot },
            RemoteAction::SendUdp { src_port, dst_ip, dst_port, data } => {
                RemoteActionView::SendUdp { src_port, dst_ip, dst_port, data: data@ }
            },
            RemoteAction::SendDns { id, server, data } => RemoteActionView::SendDns {
                id,
                server,
                data: data@,
            },
        }
    }
}

/// What the main loop of the remote can meet with.
#[derive(Debug)]
pub enum RemoteEvent {
    /// A message came from the host.
    Message(HostMessage),
    /// The host disconnected.
    HostDisconnected,
    /// No message could be read from the host.
    ReadFailed,
    /// A response could not be written to the host.
    WriteFailed,
}

/// What a `RemoteEvent` says.
#[verifier::ext_equal]
pub enum RemoteEventView {
    Message(HostMessageView),
    HostDisconnected,
    ReadFailed,
    WriteFailed,
}

impl View for RemoteEvent {
    type V = RemoteEventView;

    open spec fn view(&self) -> RemoteEventView {
        match *self {
            RemoteEvent::Message(msg) => RemoteEventView::Message(msg@),
            RemoteEvent::HostDisconnected => RemoteEventView::HostDisconnected,
            RemoteEvent::ReadFailed => RemoteEventView::ReadFailed,
            RemoteEvent::WriteFailed => RemoteEventView::WriteFailed,
        }
    }
}

/// The state of the remote as a value.
#[verifier::ext_equal]
pub struct RemoteView {
    /// The slots of the open connections, under the IDs that the host gave them.
    pub connections: Map<u32, u64>,
    /// The slot of the next connection.
    pub next_slot: u64,
    pub running: bool,
}

/// The slot after this one. The counter comes round after 2^64 connections.
pub open spec fn slot_after(slot: u64) -> u64 {
    if slot == u64::MAX {
        0
    } else {
        (slot + 1) as u64
    }
}

impl RemoteView {
    /// The state before any message.
    pub open spec fn start() -> RemoteView {
        RemoteView { connections: Map::empty(), next_slot: 0, running: true }
    }

    /// What a message from the host calls for.
    pub open spec fn action(self, msg: HostMessageView) -> RemoteActionView {
        match msg {
            HostMessageView::TcpConnect { id, dst_ip, dst_port } => RemoteActionView::Connect {
                id,
                dst_ip,
                dst_port,
            },
            HostMessageView::TcpData { id, data } => if self.connections.contains_key(id) {
                RemoteActionView::Deliver { id, slot: self.connections[id], data }
            } else {
                RemoteActionView::Nothing
            },
            HostMessageView::TcpClose { id } => if self.connections.contains_key(id) {
                RemoteActionView::HangUp { slot: self.connections[id] }
            } else {
                RemoteActionView::Nothing
            },
            HostMessageView::UdpDatagram { src_port, dst_ip, dst_port, data } => {
                RemoteActionView::SendUdp { src_port, dst_ip, dst_port, data }
            },
            HostMessageView::DnsQuery { id, server, data } => RemoteActionView::SendDns {
                id,
                server,
                data,
            },
            HostMessageView::Shutdown => RemoteActionView::Nothing,
        }
    }

    /// The state after a message from the host.
    pub open spec fn after(self, msg: HostMessageView) -> RemoteView {
        match msg {
            HostMessageView::TcpClose { id } => self.without(id),
            HostMessageView::Shutdown => self.stopped(),
            _ => self,
        }
    }

    /// The state without a connection under this ID.
    pub open spec fn without(self, id: u32) -> RemoteView {
        RemoteView { connections: self.connections.remove(id), ..self }
    }

    /// The state with a new connection under this ID.
    pub open spec fn with_connection(self, id: u32) -> RemoteView {
        RemoteView {
            connections: self.connections.insert(id, self.next_slot),
            next_slot: slot_after(self.next_slot),
            ..self
        }
    }

    /// The state in which the remote has stopped.
    pub open spec fn stopped(self) -> RemoteView {
        RemoteView { running: false, ..self }
    }

    /// What an event calls for.
    pub open spec fn event_action(self, event: RemoteEventView) -> RemoteActionView {
        match event {
            RemoteEventView::Message(msg) => self.action(msg),
            _ => RemoteActionView::Nothing,
        }
    }

    /// The state after an event: without the host there is nothing left to do.
    pub open spec fn event_after(self, event: RemoteEventView) -> RemoteView {
        match event {
            RemoteEventView::Message(msg) => self.after(msg),
            _ => self.stopped(),
        }
    }
}

/// The remote proxy.
pub struct RemoteProxy {
    tcp_connections: DashMap<u32, u64>,
    next_slot: u64,
    running: bool,
}

impl View for RemoteProxy {
    type V = RemoteView;

    closed spec fn view(&self) -> RemoteView {
        RemoteView {
            connections: tables::slot_entries(self.tcp_connections),
            next_slot: self.next_slot,
            running: self.running,
        }
    }
}

impl RemoteProxy {
    /// The proxy before any message, and the message that tells the host that it is
    /// ready.
    pub fn new() -> (r: (RemoteProxy, RemoteMessage))
        ensures
            r.0@ == RemoteView::start(),
            r.1@ == RemoteMessageView::Ready,
    {
        let proxy = RemoteProxy {
            tcp_connections: tables::new_slots(),
            next_slot: 0,
            running: true,
        };
        (proxy, RemoteMessage::Ready)
    }

    /// Whether the proxy goes on.
    pub fn is_running(&self) -> (r: bool)
        ensures
            r == self@.running,
    {
        self.running
    }

    /// React to an event of the main loop.
    pub fn handle_event(&mut self, event: RemoteEvent) -> (action: RemoteAction)
        ensures
            action@ == old(self)@.event_action(event@),
            final(self)@ == old(self)@.event_after(event@),
    {
        match event {
            RemoteEvent::Message(msg) => self.handle_host_message(msg),
            _ => {
                self.running = false;
                RemoteAction::Nothing
            },
        }
    }

    /// React to a message from the host.
    pub fn handle_host_message(&mut self, msg: HostMessage) -> (action: RemoteAction)
        ensures
            action@ == old(self)@.action(msg@),
            final(self)@ == old(self)@.after(msg@),
    {
        match msg {
            HostMessage::TcpConnect { id, dst_ip, dst_port } => RemoteAction::Connect {
                id,
                dst_ip,
                dst_port,
            },
            HostMessage::TcpData { id, data } => self.handle_tcp_data(id, data),
            HostMessage::TcpClose { id } => self.handle_tcp_close(id),
            HostMessage::UdpDatagram { src_port, dst_ip, dst_port, data } => {
                RemoteAction::SendUdp { src_port, dst_ip, dst_port, data }
            },
            HostMessage::DnsQuery { id, server, data } => RemoteAction::SendDns {
                id,
                server,
                data,
            },
            HostMessage::Shutdown => {
                self.running = false;
                RemoteAction::Nothing
            },
        }
    }

    /// Hand data to the connection under an ID, if there is one.
    pub fn handle_tcp_data(&self, id: u32, data: Vec<u8>) -> (action: RemoteAction)
        ensures
            action@ == self@.action(HostMessageView::TcpData { id, data: data@ }),
    {
        match tables::get_slot(&self.tcp_connections, id) {
            Some(slot) => RemoteAction::Deliver { id, slot, data },
            None => RemoteAction::Nothing,
        }
    }

    /// Hang up on the connection under an ID, if there is one.
    pub fn handle_tcp_close(&mut self, id: u32) -> (action: RemoteAction)
        ensures
            action@ == old(self)@.action(HostMessageView::TcpClose { id }),
            final(self)@ == old(self)@.without(id),
    {
        match tables::remove_slot(&mut self.tcp_connections, id) {
            Some(slot) => RemoteAction::HangUp { slot },
            None => RemoteAction::Nothing,
        }
    }

    /// A connection that the host asked for was made: the message for the host, the
    /// slot of the connection, and the slot that it pushes out, if there is one.
    pub fn connect_finished(&mut self, id: u32) -> (r: (RemoteMessage, u64, Option<u64>))
        ensures
            r.0@ == (RemoteMessageView::TcpConnected { id }),
            r.1 == old(self)@.next_slot,
            r.2 == old(self)@.connections.get(id),
            final(self)@ == old(self)@.with_connection(id),
    {
        let slot: u64 = self.next_slot;
        self.next_slot = if slot == u64::MAX { 0 } else { slot + 1 };
        let pushed_out: Option<u64> = tables::insert_slot(&mut self.tcp_connections, id, slot);
        (RemoteMessage::TcpConnected { id }, slot, pushed_out)
    }

    /// A connection that the host asked for was not made: the message for the host.
    pub fn connect_failed(&self, id: u32, error: String) -> (msg: RemoteMessage)
        ensures
            msg@ == (RemoteMessageView::TcpError { id, error: error@ }),
    {
        RemoteMessage::TcpError { id, error }
    }

    /// Data could not be handed to the connection under an ID: it is dropped. The
    /// slot that becomes free comes back.
    pub fn delivery_failed(&mut self, id: u32) -> (slot: Option<u64>)
        ensures
            slot == old(self)@.connections.get(id),
            final(self)@ == old(self)@.without(id),
    {
        tables::remove_slot(&mut self.tcp_connections, id)
    }

    /// A connection is done: it is removed. The slot that becomes free comes back.
    pub fn connection_done(&mut self, id: u32) -> (slot: Option<u64>)
        ensures
            slot == old(self)@.connections.get(id),
            final(self)@ == old(self)@.without(id),
    {
        tables::remove_slot(&mut self.tcp_connections, id)
    }
}

/// Data for an unknown connection is dropped, and closing one does nothing.
pub proof fn law_unknown_connection_is_ignored(remote: RemoteView, id: u32, data: Seq<u8>)
    requires
        !remote.connections.contains_key(id),
    ensures
        remote.action(HostMessageView::TcpData { id, data }) == RemoteActionView::Nothing,
        remote.action(HostMessageView::TcpClose { id }) == RemoteActionView::Nothing,
        remote.after(HostMessageView::TcpData { id, data }) == remote,
        remote.after(HostMessageView::TcpClose { id }) == remote,
{
    assert(remote.connections.remove(id) =~= remote.connections);
}

/// Data that comes after a connection was made goes to it as it is, until the
/// connection is closed; then none does.
pub proof fn law_data_goes_to_its_connection(remote: RemoteView, id: u32, data: Seq<u8>)
    ensures
        ({
            let up = remote.with_connection(id);
            let down = up.after(HostMessageView::TcpClose { id });
            &&& up.action(HostMessageView::TcpData { id, data }) == (RemoteActionView::Deliver {
                id,
                slot: remote.next_slot,
                data,
            })
            &&& up.action(HostMessageView::TcpClose { id }) == (RemoteActionView::HangUp {
                slot: remote.next_slot,
            })
            &&& down.action(HostMessageView::TcpData { id, data }) == RemoteActionView::Nothing
        }),
{
}

/// What is done to one connection leaves the others as they were.
pub proof fn law_other_connections_are_untouched(remote: RemoteView, msg: HostMessageView, other: u32)
    requires
        msg != (HostMessageView::TcpClose { id: other }),
    ensures
        remote.after(msg).connections.get(other) == remote.connections.get(other),
        forall|id: u32|
            id != other ==> #[trigger] remote.with_connection(id).connections.get(other)
                == remote.connections.get(other),
        forall|id: u32|
            id != other ==> #[trigger] remote.without(id).connections.get(other)
                == remote.connections.get(other),
{
}

/// The remote stops when it is told to shut down or loses the host, and at no other
/// time.
pub proof fn law_what_stops_the_remote(remote: RemoteView, event: RemoteEventView)
    requires
        remote.running,
    ensures
        !remote.event_after(event).running <==> (event matches RemoteEventView::Message(msg)
            ==> msg == HostMessageView::Shutdown),
{
}

} // verus!
