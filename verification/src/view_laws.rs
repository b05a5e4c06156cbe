//! What messages, actions, events and packets say: all that they hold.

use vstd::prelude::*;

use crate::addr::{IpAddr, SocketAddr};
use crate::host::forward;
use crate::host::forward::{HostAction, HostActionView};
use crate::host::session::{HostEvent, HostEventView};
use crate::packet;
use crate::packet::{
    PacketError, PacketFault, PacketView, ParsedPacket, TcpPacketInfo, TcpPacketView,
    UdpPacketInfo, UdpPacketView,
};
use crate::protocol::{HostMessage, HostMessageView, RemoteMessage, RemoteMessageView};
use crate::remote::proxy;
use crate::remote::proxy::{RelayEvent, RelayEventView, RelayStep};
use crate::remote::{RemoteAction, RemoteActionView, RemoteEvent, RemoteEventView};

verus! {

/// A message of the host says all that it holds.
pub proof fn law_host_messages_say_all(
    id: u32,
    ip: IpAddr,
    src_port: u16,
    dst_port: u16,
    data: Vec<u8>,
)
    ensures
        (HostMessage::TcpConnect { id, dst_ip: ip, dst_port })@ == (HostMessageView::TcpConnect {
            id,
            dst_ip: ip,
            dst_port,
        }),
        (HostMessage::TcpData { id, data })@ == (HostMessageView::TcpData { id, data: data@ }),
        (HostMessage::TcpClose { id })@ == (HostMessageView::TcpClose { id }),
        (HostMessage::UdpDatagram { src_port, dst_ip: ip, dst_port, data })@ == (
        HostMessageView::UdpDatagram { src_port, dst_ip: ip, dst_port, data: data@ }),
        (HostMessage::DnsQuery { id, server: ip, data })@ == (HostMessageView::DnsQuery {
            id,
            server: ip,
            data: data@,
        }),
        HostMessage::Shutdown@ == HostMessageView::Shutdown,
{
}

/// A message of the remote says all that it holds.
pub proof fn law_remote_messages_say_all(
    id: u32,
    ip: IpAddr,
    src_port: u16,
    dst_port: u16,
    data: Vec<u8>,
    error: String,
)
    ensures
        (RemoteMessage::TcpConnected { id })@ == (RemoteMessageView::TcpConnected { id }),
        (RemoteMessage::TcpData { id, data })@ == (RemoteMessageView::TcpData { id, data: data@ }),
        (RemoteMessage::TcpClosed { id })@ == (RemoteMessageView::TcpClosed { id }),
        (RemoteMessage::TcpError { id, error })@ == (RemoteMessageView::TcpError {
            id,
            error: error@,
        }),
        (RemoteMessage::UdpResponse { dst_port, src_ip: ip, src_port, data })@ == (
        RemoteMessageView::UdpResponse { dst_port, src_ip: ip, src_port, data: data@ }),
        (RemoteMessage::DnsResponse { id, data })@ == (RemoteMessageView::DnsResponse {
            id,
            data: data@,
        }),
        RemoteMessage::Ready@ == RemoteMessageView::Ready,
        (RemoteMessage::Error { error })@ == (RemoteMessageView::Error { error: error@ }),
{
}

/// A packet says all that it holds, payload and all.
pub proof fn law_packets_say_all(tcp: TcpPacketInfo, udp: UdpPacketInfo, protocol: u8)
    ensures
        tcp@ == (TcpPacketView {
            src_ip: tcp.src_ip,
            dst_ip: tcp.dst_ip,
            src_port: tcp.src_port,
            dst_port: tcp.dst_port,
            seq: tcp.seq,
            ack: tcp.ack,
            flags: tcp.flags,
            window: tcp.window,
            payload: tcp.payload@,
        }),
        udp@ == (UdpPacketView {
            src_ip: udp.src_ip,
            dst_ip: udp.dst_ip,
            src_port: udp.src_port,
            dst_port: udp.dst_port,
            payload: udp.payload@,
        }),
        ParsedPacket::Tcp(tcp)@ == PacketView::Tcp(tcp@),
        ParsedPacket::Udp(udp)@ == PacketView::Udp(udp@),
        (ParsedPacket::Other { protocol })@ == (PacketView::Other { protocol }),
{
}

/// An error of the parser is of one kind, and the outcome of a parse is the packet or
/// that kind.
pub proof fn law_errors_are_of_one_kind(error: PacketError, parsed: ParsedPacket)
    ensures
        error is Empty <==> error@ is Empty,
        error is Ipv4TooShort <==> error@ is Ipv4TooShort,
        error is Ipv4Header <==> error@ is Ipv4Header,
        error is Ipv6TooShort <==> error@ is Ipv6TooShort,
        error is Ipv6Header <==> error@ is Ipv6Header,
        error is Ipv6Extensions <==> error@ is Ipv6Extensions,
        error is TcpTooShort <==> error@ is TcpTooShort,
        error is TcpHeader <==> error@ is TcpHeader,
        error is UdpTooShort <==> error@ is UdpTooShort,
        error is UdpHeader <==> error@ is UdpHeader,
        error matches PacketError::UnknownVersion(v) ==> error@ == PacketFault::UnknownVersion(v),
        packet::outcome(Ok(parsed)) == Ok::<PacketView, PacketFault>(parsed@),
        packet::outcome(Err(error)) == Err::<PacketView, PacketFault>(error@),
{
}

/// An action of the host says all that it holds, and a list of actions says what each
/// of them says, in order.
pub proof fn law_host_actions_say_all(
    msg: HostMessage,
    tcp: TcpPacketInfo,
    udp: UdpPacketInfo,
    client: SocketAddr,
    data: Vec<u8>,
    actions: Seq<HostAction>,
)
    ensures
        HostAction::ToRemote(msg)@ == HostActionView::ToRemote(msg@),
        HostAction::TcpToTun(tcp)@ == HostActionView::TcpToTun(tcp@),
        HostAction::UdpToTun(udp)@ == HostActionView::UdpToTun(udp@),
        (HostAction::DnsReply { client, data })@ == (HostActionView::DnsReply {
            client,
            data: data@,
        }),
        forward::said(actions).len() == actions.len(),
        forall|i: int|
            0 <= i < actions.len() ==> forward::said(actions)[i] == (#[trigger] actions[i])@,
{
}

/// An event of the host says all that it holds.
pub proof fn law_host_events_say_all(
    data: Vec<u8>,
    msg: RemoteMessage,
    sender: SocketAddr,
    seen: u128,
    now: u128,
)
    ensures
        HostEvent::TunPacket(data).at(seen, now) == (HostEventView::TunPacket {
            data: data@,
            seen,
            now,
        }),
        HostEvent::Message(msg).at(seen, now) == HostEventView::Message(msg@),
        (HostEvent::DnsQuery { data, sender }).at(seen, now) == (HostEventView::DnsQuery {
            data: data@,
            sender,
        }),
        HostEvent::TunReadFailed.at(seen, now) == HostEventView::TunReadFailed,
        HostEvent::TunWriteFailed.at(seen, now) == HostEventView::TunWriteFailed,
        HostEvent::RemoteDisconnected.at(seen, now) == HostEventView::RemoteDisconnected,
        HostEvent::RemoteReadFailed.at(seen, now) == HostEventView::RemoteReadFailed,
        HostEvent::RemoteWriteFailed.at(seen, now) == HostEventView::RemoteWriteFailed,
        HostEvent::Interrupt.at(seen, now) == HostEventView::Interrupt,
{
}

/// An action of the remote says all that it holds.
pub proof fn law_remote_actions_say_all(
    id: u32,
    slot: u64,
    ip: IpAddr,
    src_port: u16,
    dst_port: u16,
    data: Vec<u8>,
)
    ensures
        RemoteAction::Nothing@ == RemoteActionView::Nothing,
        (RemoteAction::Connect { id, dst_ip: ip, dst_port })@ == (RemoteActionView::Connect {
            id,
            dst_ip: ip,
            dst_port,
        }),
        (RemoteAction::Deliver { id, slot, data })@ == (RemoteActionView::Deliver {
            id,
            slot,
            data: data@,
        }),
        (RemoteAction::HangUp { slot })@ == (RemoteActionView::HangUp { slot }),
        (RemoteAction::SendUdp { src_port, dst_ip: ip, dst_port, data })@ == (
        RemoteActionView::SendUdp { src_port, dst_ip: ip, dst_port, data: data@ }),
        (RemoteAction::SendDns { id, server: ip, data })@ == (RemoteActionView::SendDns {
            id,
            server: ip,
            data: data@,
        }),
{
}

/// An event of the remote says all that it holds.
pub proof fn law_remote_events_say_all(msg: HostMessage)
    ensures
        RemoteEvent::Message(msg)@ == RemoteEventView::Message(msg@),
        RemoteEvent::HostDisconnected@ == RemoteEventView::HostDisconnected,
        RemoteEvent::ReadFailed@ == RemoteEventView::ReadFailed,
        RemoteEvent::WriteFailed@ == RemoteEventView::WriteFailed,
{
}

/// An event of a relay says all that it holds.
pub proof fn law_relay_events_say_all(data: Vec<u8>, error: String)
    ensures
        RelayEvent::FromHost(data)@ == RelayEventView::FromHost(data@),
        RelayEvent::FromDestination(data)@ == RelayEventView::FromDestination(data@),
        RelayEvent::WriteFailed(error)@ == RelayEventView::WriteFailed(error@),
        RelayEvent::ReadFailed(error)@ == RelayEventView::ReadFailed(error@),
        RelayEvent::NotRunning@ == RelayEventView::NotRunning,
        RelayEvent::HostHungUp@ == RelayEventView::HostHungUp,
        RelayEvent::ReportFailed@ == RelayEventView::ReportFailed,
{
}

/// A step of a relay says all that it holds: what is written, each message in order, and
/// whether it is the last step.
pub proof fn law_relay_steps_say_all(step: RelayStep)
    ensures
        step@.done == step.done,
        step.write is None ==> step@.write is None,
        step.write matches Some(data) ==> step@.write == Some(data@),
        step@.report == proxy::messages(step.report@),
        proxy::messages(step.report@).len() == step.report@.len(),
        forall|i: int|
            0 <= i < step.report@.len() ==> proxy::messages(step.report@)[i] == (
            #[trigger] step.report@[i])@,
{
}

} // verus!
