//! What the remote does on one TCP connection, and with one UDP datagram.

use vstd::prelude::*;

use crate::addr::{IpAddr, Ipv4Addr, Ipv6Addr, SocketAddr};
use crate::protocol::{RemoteMessage, RemoteMessageView};

verus! {

/// How long an answer to a UDP datagram is waited for, in seconds.
pub const UDP_ANSWER_SECONDS: u64 = 5;

/// The port of a DNS server.
pub const DNS_PORT: u16 = 53;

/// What the relay of one TCP connection can meet with.
#[derive(Debug)]
pub enum RelayEvent {
    /// The proxy does not run any more.
    NotRunning,
    /// The host sent data.
    FromHost(Vec<u8>),
    /// The host hung up.
    HostHungUp,
    /// Data could not be written to the destination.
    WriteFailed(String),
    /// The destination sent data; no bytes mean that it closed the connection.
    FromDestination(Vec<u8>),
    /// The destination could not be read.
    ReadFailed(String),
    /// A message could not be passed on to the host.
    ReportFailed,
}

/// What a `RelayEvent` says.
#[verifier::ext_equal]
pub enum RelayEventView {
    NotRunning,
    FromHost(Seq<u8>),
    HostHungUp,
    WriteFailed(Seq<char>),
    FromDestination(Seq<u8>),
    ReadFailed(Seq<char>),
    ReportFailed,
}

impl View for RelayEvent {
    type V = RelayEventView;

    open spec fn view(&self) -> RelayEventView {
        match *self {
            RelayEvent::NotRunning => RelayEventView::NotRunning,
            RelayEvent::FromHost(data) => RelayEventView::FromHost(data@),
            RelayEvent::HostHungUp => RelayEventView::HostHungUp,
            RelayEvent::WriteFailed(error) => RelayEventView::WriteFailed(error@),
            RelayEvent::FromDestination(data) => RelayEventView::FromDestination(data@),
            RelayEvent::ReadFailed(error) => RelayEventView::ReadFailed(error@),
            RelayEvent::ReportFailed => RelayEventView::ReportFailed,
        }
    }
}

/// What the relay of one TCP connection does.
#[derive(Debug)]
pub struct RelayStep {
    /// Write this to the destination.
    pub write: Option<Vec<u8>>,
    /// Pass these messages on to the host.
    pub report: Vec<RemoteMessage>,
    /// Close the connection.
    pub done: bool,
}

/// What a `RelayStep` says.
#[verifier::ext_equal]
pub struct RelayStepView {
    pub write: Option<Seq<u8>>,
    pub report: Seq<RemoteMessageView>,
    pub done: bool,
}

impl View for RelayStep {
    type V = RelayStepView;

    open spec fn view(&self) -> RelayStepView {
        RelayStepView {
            write: match self.write {
                Some(data) => Some(data@),
                None => None,
            },
            report: messages(self.report@),
            done: self.done,
        }
    }
}

/// What a list of messages says.
pub open spec fn messages(list: Seq<RemoteMessage>) -> Seq<RemoteMessageView> {
    list.map_values(|msg: RemoteMessage| msg@)
}

/// The relay ends: the host is told that the connection is closed, behind these
/// messages.
pub open spec fn relay_ends(id: u32, before: Seq<RemoteMessageView>) -> RelayStepView {
    RelayStepView {
        write: None,
        report: before.push(RemoteMessageView::TcpClosed { id }),
        done: true,
    }
}

/// What an event calls for on the connection with this ID.
pub open spec fn relay(id: u32, event: RelayEventView) -> RelayStepView {
    match event {
        RelayEventView::FromHost(data) => RelayStepView {
            write: Some(data),
            report: seq![],
            done: false,
        },
        RelayEventView::FromDestination(data) => if data.len() == 0 {
            relay_ends(id, seq![])
        } else {
            RelayStepView {
                write: None,
                report: seq![RemoteMessageView::TcpData { id, data }],
                done: false,
            }
        },
        RelayEventView::WriteFailed(error) => relay_ends(
            id,
            seq![RemoteMessageView::TcpError { id, error }],
        ),
        RelayEventView::ReadFailed(error) => relay_ends(
            id,
            seq![RemoteMessageView::TcpError { id, error }],
        ),
        RelayEventView::NotRunning | RelayEventView::HostHungUp | RelayEventView::ReportFailed => {
            relay_ends(id, seq![])
        },
    }
}

/// Relay data between host and remote destination: what an event calls for on the
/// connection with this ID.
pub fn handle_tcp_connection(id: u32, event: RelayEvent) -> (step: RelayStep)
    ensures
        step@ == relay(id, event@),
{
    let mut report: Vec<RemoteMessage> = Vec::new();
    match event {
        // Data from host to send to destination
        RelayEvent::FromHost(data) => {
            return RelayStep { write: Some(data), report, done: false };
        },
        // Data from destination to send to host
        RelayEvent::FromDestination(data) => {
            if data.len() > 0 {
                report.push(RemoteMessage::TcpData { id, data });
                return RelayStep { write: None, report, done: false };
            }
        },
        RelayEvent::WriteFailed(error) => {
            report.push(RemoteMessage::TcpError { id, error });
        },
        RelayEvent::ReadFailed(error) => {
            report.push(RemoteMessage::TcpError { id, error });
        },
        // Channel closed, connection should close
        RelayEvent::NotRunning | RelayEvent::HostHungUp | RelayEvent::ReportFailed => {},
    }
    // Ensure we notify host of close
    report.push(RemoteMessage::TcpClosed { id });
    RelayStep { write: None, report, done: true }
}

/// All messages that the relay of the connection with this ID passes on, over these
/// events, and whether it is done. Events that come later find nobody.
pub open spec fn relay_all(id: u32, events: Seq<RelayEventView>) -> (Seq<RemoteMessageView>, bool)
    decreases events.len(),
{
    if events.len() == 0 {
        (seq![], false)
    } else {
        let (before, done) = relay_all(id, events.drop_last());
        if done {
            (before, done)
        } else {
            let step = relay(id, events.last());
            (before + step.report, step.done)
        }
    }
}

/// The host is told exactly once that a connection is closed, and that is the last
/// that it hears of it; while the relay runs, it is not told so.
pub proof fn law_closed_is_told_once_and_last(id: u32, events: Seq<RelayEventView>)
    ensures
        ({
            let (report, done) = relay_all(id, events);
            let closed = RemoteMessageView::TcpClosed { id };
            if done {
                &&& report.len() > 0
                &&& report.last() == closed
                &&& !report.drop_last().contains(closed)
            } else {
                !report.contains(closed)
            }
        }),
    decreases events.len(),
{
    if events.len() > 0 {
        let (before, done) = relay_all(id, events.drop_last());
        let closed = RemoteMessageView::TcpClosed { id };
        law_closed_is_told_once_and_last(id, events.drop_last());
        if !done {
            let step = relay(id, events.last());
            let report = before + step.report;
            let quiet = if step.done {
                report.drop_last()
            } else {
                report
            };
            assert forall|i: int| 0 <= i < quiet.len() implies quiet[i] != closed by {
                if i < before.len() {
                    assert(before.contains(before[i]));
                }
            }
        }
    }
}

/// Whether an event is the failure of a read or a write with this error.
pub open spec fn fails_with(event: RelayEventView, error: Seq<char>) -> bool {
    event == RelayEventView::WriteFailed(error) || event == RelayEventView::ReadFailed(error)
}

/// All that the host is told of a connection is data, none of it empty, then at most
/// one error, then the close. The error is that of a read or a write that failed, and
/// stands right before the close.
pub proof fn law_what_the_host_is_told(id: u32, events: Seq<RelayEventView>, i: int)
    requires
        0 <= i < relay_all(id, events).0.len(),
    ensures
        ({
            let (report, done) = relay_all(id, events);
            match report[i] {
                RemoteMessageView::TcpData { id: told, data } => told == id && data.len() > 0,
                RemoteMessageView::TcpError { id: told, error } => {
                    &&& told == id
                    &&& done
                    &&& i == report.len() - 2
                    &&& exists|k: int| 0 <= k < events.len() && fails_with(#[trigger] events[k], error)
                },
                RemoteMessageView::TcpClosed { id: told } => {
                    &&& told == id
                    &&& done
                    &&& i == report.len() - 1
                },
                _ => false,
            }
        }),
    decreases events.len(),
{
    if events.len() > 0 {
        let (before, done) = relay_all(id, events.drop_last());
        let report = relay_all(id, events).0;
        if i < before.len() {
            law_what_the_host_is_told(id, events.drop_last(), i);
            assert(report[i] == before[i]);
            if let RemoteMessageView::TcpError { error, .. } = report[i] {
                let earlier = events.drop_last();
                let k = choose|k: int|
                    0 <= k < earlier.len() && fails_with(#[trigger] earlier[k], error);
                assert(fails_with(events[k], error));
            }
        } else {
            assert(report[i] == relay(id, events.last()).report[i - before.len()]);
            if let RemoteMessageView::TcpError { error, .. } = report[i] {
                assert(fails_with(events[events.len() - 1], error));
            }
        }
    }
}

/// A read or a write that fails while the relay runs is told, and is the last but one
/// that the host is told.
pub proof fn law_failure_is_told(id: u32, events: Seq<RelayEventView>, error: Seq<char>)
    requires
        !relay_all(id, events).1,
    ensures
        forall|event: RelayEventView| #[trigger]
            fails_with(event, error) ==> relay_all(id, events.push(event)) == (
                relay_all(id, events).0.push(RemoteMessageView::TcpError { id, error }).push(
                    RemoteMessageView::TcpClosed { id },
                ),
                true,
            ),
{
    assert forall|event: RelayEventView| #[trigger]
        fails_with(event, error) implies relay_all(id, events.push(event)) == (
        relay_all(id, events).0.push(RemoteMessageView::TcpError { id, error }).push(
            RemoteMessageView::TcpClosed { id },
        ),
        true,
    ) by {
        assert(events.push(event).drop_last() =~= events);
        assert(relay_all(id, events.push(event)).0 =~= relay_all(id, events).0.push(
            RemoteMessageView::TcpError { id, error },
        ).push(RemoteMessageView::TcpClosed { id }));
    }
}

/// The data that the messages carry, put together.
pub open spec fn data_in(messages: Seq<RemoteMessageView>) -> Seq<u8>
    decreases messages.len(),
{
    if messages.len() == 0 {
        seq![]
    } else {
        match messages.last() {
            RemoteMessageView::TcpData { data, .. } => data_in(messages.drop_last()) + data,
            _ => data_in(messages.drop_last()),
        }
    }
}

/// What the destination sent until the relay was done, put together.
pub open spec fn data_sent(id: u32, events: Seq<RelayEventView>) -> Seq<u8>
    decreases events.len(),
{
    if events.len() == 0 {
        seq![]
    } else {
        let before = data_sent(id, events.drop_last());
        match events.last() {
            RelayEventView::FromDestination(data) => if relay_all(id, events.drop_last()).1 {
                before
            } else {
                before + data
            },
            _ => before,
        }
    }
}

/// The host gets all that the destination sent, in order.
pub proof fn law_all_data_is_passed_on(id: u32, events: Seq<RelayEventView>)
    ensures
        data_in(relay_all(id, events).0) == data_sent(id, events),
    decreases events.len(),
{
    if events.len() > 0 {
        let (before, done) = relay_all(id, events.drop_last());
        law_all_data_is_passed_on(id, events.drop_last());
        if !done {
            let step = relay(id, events.last());
            let all = before + step.report;
            if step.report.len() == 0 {
                assert(all =~= before);
            } else if step.report.len() == 1 {
                assert(all.drop_last() =~= before);
            } else {
                assert(all.drop_last().drop_last() =~= before);
                assert(data_in(all.drop_last()) == data_in(before));
            }
            if step.done {
                assert(data_sent(id, events.drop_last()) + Seq::<u8>::empty() =~= data_sent(
                    id,
                    events.drop_last(),
                ));
                assert(events.last() matches RelayEventView::FromDestination(data)
                    ==> data =~= Seq::<u8>::empty());
            }
        }
    }
}

/// The address to bind a socket to that sends to `dst_ip`: any address of its
/// family.
pub fn udp_bind_ip(dst_ip: IpAddr) -> (r: IpAddr)
    ensures
        r.same_family(dst_ip),
        match r {
            IpAddr::V4(a) => a.bits == 0,
            IpAddr::V6(a) => a.bits == 0,
        },
{
    match dst_ip {
        IpAddr::V4(_) => IpAddr::V4(Ipv4Addr { bits: 0 }),
        IpAddr::V6(_) => IpAddr::V6(Ipv6Addr { bits: 0 }),
    }
}

/// What came of waiting for an answer to a datagram.
#[derive(Debug)]
pub enum UdpOutcome {
    /// An answer came.
    Received { from: SocketAddr, data: Vec<u8> },
    /// The socket could not be read.
    Failed(String),
    /// Nothing came in time.
    TimedOut,
}

/// The answers to a datagram. For most UDP protocols one response is enough; for
/// DNS, the response is complete in one packet. Nothing in time is no answer.
pub fn udp_answers(outcome: UdpOutcome) -> (r: Result<Vec<(IpAddr, u16, Vec<u8>)>, String>)
    ensures
        match outcome {
            UdpOutcome::Received { from, data } => r matches Ok(answers) && answers@ == seq![
                (from.ip, from.port, data),
            ],
            UdpOutcome::Failed(error) => r == Err::<Vec<(IpAddr, u16, Vec<u8>)>, String>(error),
            UdpOutcome::TimedOut => r matches Ok(answers) && answers@.len() == 0,
        },
{
    let mut responses: Vec<(IpAddr, u16, Vec<u8>)> = Vec::new();
    match outcome {
        UdpOutcome::Received { from, data } => {
            responses.push((from.ip, from.port, data));
        },
        UdpOutcome::Failed(error) => return Err(error),
        UdpOutcome::TimedOut => {},
    }
    Ok(responses)
}

/// An answer as a message for the host: it goes to the port that the datagram came
/// from.
pub open spec fn udp_reply(src_port: u16, answer: (IpAddr, u16, Vec<u8>)) -> RemoteMessageView {
    RemoteMessageView::UdpResponse {
        dst_port: src_port,
        src_ip: answer.0,
        src_port: answer.1,
        data: answer.2@,
    }
}

/// An answer as a DNS response for the host, under the ID of the query.
pub open spec fn dns_reply(id: u32, answer: (IpAddr, u16, Vec<u8>)) -> RemoteMessageView {
    RemoteMessageView::DnsResponse { id, data: answer.2@ }
}

/// The answers as messages for the host: each goes to the port that the datagram
/// came from.
pub fn udp_replies(src_port: u16, answers: Vec<(IpAddr, u16, Vec<u8>)>) -> (r: Vec<RemoteMessage>)
    ensures
        messages(r@) == Seq::new(answers@.len(), |i: int| udp_reply(src_port, answers@[i])),
{
    let mut replies: Vec<RemoteMessage> = Vec::new();
    let mut i: usize = 0;
    while i < answers.len()
        invariant
            i <= answers@.len(),
            replies@.len() == i,
            forall|j: int| 0 <= j < i ==> (#[trigger] replies@[j])@ == udp_reply(src_port, answers@[j]),
        decreases answers@.len() - i,
    {
        let answer: &(IpAddr, u16, Vec<u8>) = &answers[i];
        let reply = RemoteMessage::UdpResponse {
            dst_port: src_port,
            src_ip: answer.0,
            src_port: answer.1,
            data: vstd::slice::slice_to_vec(answer.2.as_slice()),
        };
        assert(reply@ =~= udp_reply(src_port, answers@[i as int]));
        replies.push(reply);
        i += 1;
    }
    replies
}

/// The answers as DNS responses for the host, under the ID of the query.
pub fn dns_replies(id: u32, answers: Vec<(IpAddr, u16, Vec<u8>)>) -> (r: Vec<RemoteMessage>)
    ensures
        messages(r@) == Seq::new(answers@.len(), |i: int| dns_reply(id, answers@[i])),
{
    let mut replies: Vec<RemoteMessage> = Vec::new();
    let mut i: usize = 0;
    while i < answers.len()
        invariant
            i <= answers@.len(),
            replies@.len() == i,
            forall|j: int| 0 <= j < i ==> (#[trigger] replies@[j])@ == dns_reply(id, answers@[j]),
        decreases answers@.len() - i,
    {
        let answer: &(IpAddr, u16, Vec<u8>) = &answers[i];
        let reply = RemoteMessage::DnsResponse {
            id,
            data: vstd::slice::slice_to_vec(answer.2.as_slice()),
        };
        assert(reply@ =~= dns_reply(id, answers@[i as int]));
        replies.push(reply);
        i += 1;
    }
    replies
}

} // verus!
