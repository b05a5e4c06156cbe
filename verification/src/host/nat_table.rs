//! The NAT table: which connections and datagrams the tunnel carries.

use std::time::Instant;
use vstd::prelude::*;

use dashmap::DashMap;

use crate::addr::IpAddr;
use crate::tables;
use crate::tables::{TcpKeyCode, UdpKeyCode};

verus! {

/// Key for TCP connection: (src_ip, src_port, dst_ip, dst_port)
pub type TcpKey = (IpAddr, u16, IpAddr, u16);

/// Key for the return path of a UDP datagram: (src_port, dst_ip, dst_port)
pub type UdpReturnKey = (u16, IpAddr, u16);

/// How long a UDP mapping stays without activity, in nanoseconds.
pub const UDP_TIMEOUT_NANOS: u128 = 60_000_000_000;

/// The sequence number that a SYN-ACK starts from.
pub const INITIAL_SEQ: u32 = 1000;

/// Where a TCP connection stands between the application and the remote end.
#[derive(Debug, Clone, Copy, PartialEq, Eq, Structural)]
pub enum ConnectionState {
    /// The application sent a SYN; the remote end has not connected yet.
    SynSent,
    /// Both sides may send.
    Established,
    /// The application closed first; the remote end has not closed yet.
    FinWait,
    /// The remote end closed first; the application has not closed yet.
    CloseWait,
    /// The remote end closed after the application; the last ACK is awaited.
    LastAck,
    /// The connection is over.
    Closed,
}

/// What is known of a TCP connection.
#[derive(Debug, Clone, Copy, PartialEq, Eq, Structural)]
pub struct TcpConnection {
    /// The ID by which the remote end knows the connection.
    pub id: u32,
    pub state: ConnectionState,
    /// The next sequence number to send to the application.
    pub seq: u32,
    /// The next sequence number expected from the application.
    pub ack: u32,
}

/// Where the answers to a UDP datagram go.
#[derive(Debug, Clone, Copy, PartialEq, Eq, Structural)]
pub struct UdpMapping {
    pub src_ip: IpAddr,
    /// When the mapping was last used, in nanoseconds since the table was made.
    pub last_activity: u128,
}

/// Whether a mapping last used at `last_activity` still counts at `now`.
pub open spec fn fresh(last_activity: u128, now: u128) -> bool {
    now - last_activity < UDP_TIMEOUT_NANOS
}

/// Whether a mapping last used at `last_activity` still counts at `now`.
pub fn mapping_is_fresh(last_activity: u128, now: u128) -> (r: bool)
    ensures
        r == fresh(last_activity, now),
{
    now < last_activity || now - last_activity < UDP_TIMEOUT_NANOS
}

/// The NAT table as a value.
#[verifier::ext_equal]
pub struct NatView {
    /// The TCP connections under their keys.
    pub flows: Map<TcpKey, TcpConnection>,
    /// The keys under the IDs that were given out.
    pub ids: Map<u32, TcpKey>,
    /// The UDP mappings under their return keys.
    pub udp: Map<UdpReturnKey, UdpMapping>,
    /// The ID of the next connection.
    pub next_id: u32,
}

/// The sum of two numbers, wrapped around at the end of `u32`.
pub open spec fn wrap_add(a: u32, b: int) -> u32 {
    ((a + b) % 0x1_0000_0000) as u32
}

impl NatView {
    /// The table without entries.
    pub open spec fn empty() -> NatView {
        NatView { flows: Map::empty(), ids: Map::empty(), udp: Map::empty(), next_id: 1 }
    }

    /// The table after a connection was made under `key`.
    pub open spec fn create(self, key: TcpKey, client_isn: u32) -> NatView {
        let conn = TcpConnection {
            id: self.next_id,
            state: ConnectionState::SynSent,
            seq: INITIAL_SEQ,
            ack: wrap_add(client_isn, 1),
        };
        NatView {
            flows: self.flows.insert(key, conn),
            ids: self.ids.insert(self.next_id, key),
            next_id: wrap_add(self.next_id, 1),
            ..self
        }
    }

    /// The table after the connection under `key` was closed, if there is one.
    pub open spec fn close(self, key: TcpKey) -> NatView {
        if self.flows.contains_key(key) {
            NatView {
                flows: self.flows.remove(key),
                ids: self.ids.remove(self.flows[key].id),
                ..self
            }
        } else {
            self
        }
    }

    /// The state of the connection under `key`, if there is one.
    pub open spec fn state(self, key: TcpKey) -> Option<ConnectionState> {
        if self.flows.contains_key(key) {
            Some(self.flows[key].state)
        } else {
            None
        }
    }

    /// The table after the connection under `key`, if there is one, came to be in
    /// this state.
    pub open spec fn set_state(self, key: TcpKey, state: ConnectionState) -> NatView {
        if self.flows.contains_key(key) {
            NatView {
                flows: self.flows.insert(key, TcpConnection { state, ..self.flows[key] }),
                ..self
            }
        } else {
            self
        }
    }

    /// The connection that an ID leads to, if there is one.
    pub open spec fn by_id(self, id: u32) -> Option<TcpConnection> {
        if self.ids.contains_key(id) {
            self.flows.get(self.ids[id])
        } else {
            None
        }
    }

    /// The next sequence number of the connection that an ID leads to, or 0.
    pub open spec fn seq(self, id: u32) -> u32 {
        match self.by_id(id) {
            Some(conn) => conn.seq,
            None => 0,
        }
    }

    /// The acknowledgment number of the connection that an ID leads to, or 0.
    pub open spec fn ack(self, id: u32) -> u32 {
        match self.by_id(id) {
            Some(conn) => conn.ack,
            None => 0,
        }
    }

    /// The table after `bytes` sequence numbers were used up on the connection
    /// that an ID leads to, if there is one.
    pub open spec fn advance_seq(self, id: u32, bytes: int) -> NatView {
        match self.by_id(id) {
            Some(conn) => NatView {
                flows: self.flows.insert(
                    self.ids[id],
                    TcpConnection { seq: wrap_add(conn.seq, bytes), ..conn },
                ),
                ..self
            },
            None => self,
        }
    }

    /// The table with this acknowledgment number on the connection that an ID
    /// leads to, if there is one.
    pub open spec fn update_ack(self, id: u32, ack: u32) -> NatView {
        match self.by_id(id) {
            Some(conn) => NatView {
                flows: self.flows.insert(self.ids[id], TcpConnection { ack, ..conn }),
                ..self
            },
            None => self,
        }
    }

    /// The table without the UDP mappings that are stale at `now`.
    pub open spec fn cleanup_udp(self, now: u128) -> NatView {
        NatView {
            udp: self.udp.restrict(
                self.udp.dom().filter(|key: UdpReturnKey| fresh(self.udp[key].last_activity, now)),
            ),
            ..self
        }
    }

    /// Whether an answer under this return key goes to `src_ip`.
    pub open spec fn returns_to(self, key: UdpReturnKey, src_ip: IpAddr) -> bool {
        self.udp.get(key) matches Some(mapping) && mapping.src_ip == src_ip
    }

    /// The table after a datagram was seen at `seen` and stale mappings were
    /// removed at `now`.
    pub open spec fn track_udp(
        self,
        src_ip: IpAddr,
        src_port: u16,
        dst_ip: IpAddr,
        dst_port: u16,
        seen: u128,
        now: u128,
    ) -> NatView {
        NatView {
            udp: self.udp.insert(
                (src_port, dst_ip, dst_port),
                UdpMapping { src_ip, last_activity: seen },
            ),
            ..self
        }.cleanup_udp(now)
    }
}

/// An address as a family and a number.
pub open spec fn ip_code(ip: IpAddr) -> (u8, u128) {
    match ip {
        IpAddr::V4(a) => (4u8, a.bits as u128),
        IpAddr::V6(a) => (6u8, a.bits),
    }
}

/// A TCP key as numbers.
pub open spec fn tcp_code(key: TcpKey) -> TcpKeyCode {
    (ip_code(key.0).0, ip_code(key.0).1, key.1, ip_code(key.2).0, ip_code(key.2).1, key.3)
}

/// A UDP return key as numbers.
pub open spec fn udp_code(key: UdpReturnKey) -> UdpKeyCode {
    (key.0, ip_code(key.1).0, ip_code(key.1).1, key.2)
}

fn encode_ip(ip: IpAddr) -> (r: (u8, u128))
    ensures
        r == ip_code(ip),
{
    match ip {
        IpAddr::V4(a) => (4u8, a.bits as u128),
        IpAddr::V6(a) => (6u8, a.bits),
    }
}

fn encode_tcp(key: TcpKey) -> (r: TcpKeyCode)
    ensures
        r == tcp_code(key),
{
    let src: (u8, u128) = encode_ip(key.0);
    let dst: (u8, u128) = encode_ip(key.2);
    (src.0, src.1, key.1, dst.0, dst.1, key.3)
}

fn encode_udp(key: UdpReturnKey) -> (r: UdpKeyCode)
    ensures
        r == udp_code(key),
{
    let dst: (u8, u128) = encode_ip(key.1);
    (key.0, dst.0, dst.1, key.2)
}

/// The NAT table.
pub struct NatTable {
    /// TCP connections indexed by (src_ip, src_port, dst_ip, dst_port)
    tcp_by_key: DashMap<TcpKeyCode, TcpConnection>,
    /// TCP connections indexed by connection ID (for reverse lookup)
    tcp_by_id: DashMap<u32, TcpKey>,
    /// UDP mappings indexed by (src_port, dst_ip, dst_port) for return path
    udp_mappings: DashMap<UdpKeyCode, UdpMapping>,
    /// Next connection ID
    next_id: u32,
    /// The moment from which activity is counted
    epoch: Instant,
}

impl View for NatTable {
    type V = NatView;

    closed spec fn view(&self) -> NatView {
        let flows = tables::flow_entries(self.tcp_by_key);
        let udp = tables::udp_entries(self.udp_mappings);
        NatView {
            flows: Map::new(
                |key: TcpKey| flows.contains_key(tcp_code(key)),
                |key: TcpKey| flows[tcp_code(key)],
            ),
            ids: tables::id_entries(self.tcp_by_id),
            udp: Map::new(
                |key: UdpReturnKey| udp.contains_key(udp_code(key)),
                |key: UdpReturnKey| udp[udp_code(key)],
            ),
            next_id: self.next_id,
        }
    }
}

impl NatTable {
    /// A table without entries.
    pub fn new() -> (r: NatTable)
        ensures
            r@ == NatView::empty(),
    {
        NatTable {
            tcp_by_key: tables::new_flows(),
            tcp_by_id: tables::new_ids(),
            udp_mappings: tables::new_udp(),
            next_id: 1,
            epoch: tables::clock_start(),
        }
    }

    /// Create a new TCP connection entry and return its ID
    pub fn create_tcp_connection(&mut self, key: TcpKey, client_isn: u32) -> (id: u32)
        ensures
            id == old(self)@.next_id,
            final(self)@ == old(self)@.create(key, client_isn),
    {
        let id: u32 = self.next_id;
        self.next_id = id.wrapping_add(1);
        let conn = TcpConnection {
            id,
            state: ConnectionState::SynSent,
            seq: INITIAL_SEQ,
            ack: client_isn.wrapping_add(1),
        };
        tables::insert_flow(&mut self.tcp_by_key, encode_tcp(key), conn);
        tables::insert_id(&mut self.tcp_by_id, id, key);
        id
    }

    /// Get the connection ID for a TCP key
    pub fn get_tcp_connection_id(&self, key: &TcpKey) -> (r: Option<u32>)
        ensures
            r == (if self@.flows.contains_key(*key) {
                Some(self@.flows[*key].id)
            } else {
                None
            }),
    {
        match tables::get_flow(&self.tcp_by_key, encode_tcp(*key)) {
            Some(conn) => Some(conn.id),
            None => None,
        }
    }

    /// Get the TCP key for a connection ID
    pub fn get_tcp_connection_key(&self, id: u32) -> (r: Option<TcpKey>)
        ensures
            r == self@.ids.get(id),
    {
        tables::get_id(&self.tcp_by_id, id)
    }

    /// Get the state of a TCP connection
    pub fn get_tcp_state(&self, key: &TcpKey) -> (r: Option<ConnectionState>)
        ensures
            r == self@.state(*key),
    {
        match tables::get_flow(&self.tcp_by_key, encode_tcp(*key)) {
            Some(conn) => Some(conn.state),
            None => None,
        }
    }

    /// Set the state of a TCP connection
    pub fn set_tcp_state(&mut self, key: &TcpKey, state: ConnectionState)
        ensures
            final(self)@ == old(self)@.set_state(*key, state),
    {
        let code: TcpKeyCode = encode_tcp(*key);
        if let Some(conn) = tables::get_flow(&self.tcp_by_key, code) {
            tables::insert_flow(&mut self.tcp_by_key, code, TcpConnection { state, ..conn });
        }
    }

    /// Close a TCP connection
    pub fn close_tcp_connection(&mut self, key: &TcpKey)
        ensures
            final(self)@ == old(self)@.close(*key),
    {
        if let Some(conn) = tables::remove_flow(&mut self.tcp_by_key, encode_tcp(*key)) {
            tables::remove_id(&mut self.tcp_by_id, conn.id);
        }
    }

    /// The connection that an ID leads to, if there is one, and its key.
    fn lookup(&self, id: u32) -> (r: Option<(TcpKey, TcpConnection)>)
        ensures
            r == (match self@.by_id(id) {
                Some(conn) => Some((self@.ids[id], conn)),
                None => None,
            }),
    {
        match tables::get_id(&self.tcp_by_id, id) {
            Some(key) => match tables::get_flow(&self.tcp_by_key, encode_tcp(key)) {
                Some(conn) => Some((key, conn)),
                None => None,
            },
            None => None,
        }
    }

    /// Get TCP sequence number for a connection
    pub fn get_tcp_seq(&self, id: u32) -> (r: u32)
        ensures
            r == self@.seq(id),
    {
        match self.lookup(id) {
            Some((_, conn)) => conn.seq,
            None => 0,
        }
    }

    /// Get TCP acknowledgment number for a connection
    pub fn get_tcp_ack(&self, id: u32) -> (r: u32)
        ensures
            r == self@.ack(id),
    {
        match self.lookup(id) {
            Some((_, conn)) => conn.ack,
            None => 0,
        }
    }

    /// Advance the TCP sequence number
    pub fn advance_tcp_seq(&mut self, id: u32, bytes: u32)
        ensures
            final(self)@ == old(self)@.advance_seq(id, bytes as int),
    {
        if let Some((key, conn)) = self.lookup(id) {
            let advanced = TcpConnection { seq: conn.seq.wrapping_add(bytes), ..conn };
            tables::insert_flow(&mut self.tcp_by_key, encode_tcp(key), advanced);
        }
    }

    /// Advance the TCP seq by 1 (for SYN which consumes one sequence number)
    pub fn advance_tcp_seq_syn(&mut self, id: u32)
        ensures
            final(self)@ == old(self)@.advance_seq(id, 1),
    {
        self.advance_tcp_seq(id, 1);
    }

    /// Update TCP ack number based on received data
    pub fn update_tcp_ack(&mut self, id: u32, ack: u32)
        ensures
            final(self)@ == old(self)@.update_ack(id, ack),
    {
        if let Some((key, conn)) = self.lookup(id) {
            tables::insert_flow(
                &mut self.tcp_by_key,
                encode_tcp(key),
                TcpConnection { ack, ..conn },
            );
        }
    }

    /// Track a UDP packet for return path routing
    ///
    /// The clock is read once: what it says is when the datagram was seen and when
    /// stale mappings are looked for. So the mapping of the datagram itself stays,
    /// whatever the clock says.
    pub fn track_udp(&mut self, src_ip: IpAddr, src_port: u16, dst_ip: IpAddr, dst_port: u16)
        ensures
            exists|now: u128|
                final(self)@ == #[trigger] old(self)@.track_udp(
                    src_ip,
                    src_port,
                    dst_ip,
                    dst_port,
                    now,
                    now,
                ),
            final(self)@.returns_to((src_port, dst_ip, dst_port), src_ip),
    {
        let now: u128 = tables::clock_nanos(&self.epoch);
        self.track_udp_at(src_ip, src_port, dst_ip, dst_port, now, now);
    }

    /// Track a UDP packet seen at `seen`, and remove the mappings that are stale at
    /// `now`
    pub fn track_udp_at(
        &mut self,
        src_ip: IpAddr,
        src_port: u16,
        dst_ip: IpAddr,
        dst_port: u16,
        seen: u128,
        now: u128,
    )
        ensures
            final(self)@ == old(self)@.track_udp(src_ip, src_port, dst_ip, dst_port, seen, now),
    {
        tables::insert_udp(
            &mut self.udp_mappings,
            encode_udp((src_port, dst_ip, dst_port)),
            UdpMapping { src_ip, last_activity: seen },
        );
        // Cleanup old mappings periodically
        self.cleanup_udp_mappings(now);
    }

    /// Get the original source IP for a UDP response
    pub fn get_udp_src_ip(&self, dst_port: u16, src_ip: IpAddr, src_port: u16) -> (r: Option<IpAddr>)
        ensures
            r == (match self@.udp.get((dst_port, src_ip, src_port)) {
                Some(mapping) => Some(mapping.src_ip),
                None => None,
            }),
    {
        match tables::get_udp(&self.udp_mappings, encode_udp((dst_port, src_ip, src_port))) {
            Some(mapping) => Some(mapping.src_ip),
            None => None,
        }
    }

    /// Remove stale UDP mappings (older than 60 seconds)
    pub fn cleanup_udp_mappings(&mut self, now: u128)
        ensures
            final(self)@ == old(self)@.cleanup_udp(now),
    {
        tables::retain_fresh_udp(&mut self.udp_mappings, now);
    }
}

impl Default for NatTable {
    fn default() -> (r: NatTable)
        ensures
            r@ == NatView::empty(),
    {
        NatTable::new()
    }
}

impl NatView {
    /// Every connection is found by its ID.
    pub open spec fn linked(self) -> bool {
        forall|key: TcpKey| #[trigger]
            self.flows.contains_key(key) ==> self.ids.contains_key(self.flows[key].id)
                && self.ids[self.flows[key].id] == key
    }

    /// Whether no connection other than the one under `key` has the ID that is
    /// given out next. The counter of IDs comes round after 2^32 connections.
    pub open spec fn next_id_is_free(self, key: TcpKey) -> bool {
        forall|other: TcpKey| #[trigger]
            self.flows.contains_key(other) && other != key ==> self.flows[other].id != self.next_id
    }

    /// The addresses of each connection and of each UDP mapping are of one family.
    pub open spec fn one_family(self) -> bool {
        &&& forall|id: u32| #[trigger]
            self.ids.contains_key(id) ==> self.ids[id].0.same_family(self.ids[id].2)
        &&& forall|key: UdpReturnKey| #[trigger]
            self.udp.contains_key(key) ==> self.udp[key].src_ip.same_family(key.1)
    }
}

/// The empty table is linked, and no operation undoes that, as long as the ID of a
/// new connection is free.
pub proof fn law_connections_stay_linked(
    table: NatView,
    key: TcpKey,
    isn: u32,
    state: ConnectionState,
    id: u32,
    n: int,
    ack: u32,
    now: u128,
)
    requires
        table.linked(),
    ensures
        NatView::empty().linked(),
        table.next_id_is_free(key) ==> table.create(key, isn).linked(),
        table.close(key).linked(),
        table.set_state(key, state).linked(),
        table.advance_seq(id, n).linked(),
        table.update_ack(id, ack).linked(),
        table.cleanup_udp(now).linked(),
{
}

/// A new connection is found by its key and by its ID; it waits for the remote and
/// acknowledges the client's SYN.
pub proof fn law_created_connection_is_found(table: NatView, key: TcpKey, isn: u32)
    ensures
        ({
            let created = table.create(key, isn);
            let id = table.next_id;
            &&& created.flows.contains_key(key)
            &&& created.flows[key].id == id
            &&& created.ids.get(id) == Some(key)
            &&& created.state(key) == Some(ConnectionState::SynSent)
            &&& created.seq(id) == INITIAL_SEQ
            &&& created.ack(id) == wrap_add(isn, 1)
        }),
{
}

/// A closed connection is found neither by its key nor by its ID.
pub proof fn law_closed_connection_is_gone(table: NatView, key: TcpKey)
    ensures
        !table.close(key).flows.contains_key(key),
        table.flows.contains_key(key) ==> !table.close(key).ids.contains_key(table.flows[key].id),
{
}

/// Closing a connection that was just made leaves every other connection as it was.
pub proof fn law_close_undoes_create(table: NatView, key: TcpKey, isn: u32)
    requires
        !table.flows.contains_key(key),
        !table.ids.contains_key(table.next_id),
    ensures
        ({
            let closed = table.create(key, isn).close(key);
            &&& closed.flows == table.flows
            &&& closed.ids == table.ids
            &&& closed.udp == table.udp
        }),
{
    let closed = table.create(key, isn).close(key);
    assert(closed.flows =~= table.flows);
    assert(closed.ids =~= table.ids);
}

/// What is done to one connection leaves the others as they were.
pub proof fn law_other_connections_are_untouched(
    table: NatView,
    key: TcpKey,
    other: TcpKey,
    isn: u32,
    state: ConnectionState,
    n: int,
    ack: u32,
)
    requires
        table.linked(),
        table.flows.contains_key(other),
        key != other,
    ensures
        table.close(key).flows.get(other) == table.flows.get(other),
        table.set_state(key, state).flows.get(other) == table.flows.get(other),
        table.create(key, isn).flows.get(other) == table.flows.get(other),
        table.flows.contains_key(key) ==> {
            let id = table.flows[key].id;
            &&& table.advance_seq(id, n).flows.get(other) == table.flows.get(other)
            &&& table.update_ack(id, ack).flows.get(other) == table.flows.get(other)
        },
        table.close(key).by_id(table.flows[other].id) == Some(table.flows[other]),
        table.next_id_is_free(key) ==> table.create(key, isn).by_id(table.flows[other].id) == Some(
            table.flows[other],
        ),
{
}

/// An answer to a datagram finds its way back to the address that the datagram came
/// from, until the mapping is stale.
pub proof fn law_tracked_datagram_is_found(
    table: NatView,
    src_ip: IpAddr,
    src_port: u16,
    dst_ip: IpAddr,
    dst_port: u16,
    seen: u128,
    now: u128,
)
    requires
        fresh(seen, now),
    ensures
        table.track_udp(src_ip, src_port, dst_ip, dst_port, seen, now).udp.get(
            (src_port, dst_ip, dst_port),
        ) == Some(UdpMapping { src_ip, last_activity: seen }),
{
}

/// A cleanup removes exactly the mappings that have been idle for 60 seconds or
/// more, and changes no other.
pub proof fn law_cleanup_removes_what_is_stale(table: NatView, key: UdpReturnKey, now: u128)
    ensures
        table.cleanup_udp(now).udp.contains_key(key) <==> table.udp.contains_key(key) && now
            - table.udp[key].last_activity < 60_000_000_000,
        table.cleanup_udp(now).udp.contains_key(key) ==> table.cleanup_udp(now).udp[key]
            == table.udp[key],
        table.cleanup_udp(now).cleanup_udp(now) == table.cleanup_udp(now),
{
    let once = table.cleanup_udp(now);
    assert(once.cleanup_udp(now).udp =~= once.udp);
}

/// What can be done to the table.
pub enum NatOp {
    Create { key: TcpKey, isn: u32 },
    Close { key: TcpKey },
    SetState { key: TcpKey, state: ConnectionState },
    AdvanceSeq { id: u32, bytes: u32 },
    UpdateAck { id: u32, ack: u32 },
    TrackUdp {
        src_ip: IpAddr,
        src_port: u16,
        dst_ip: IpAddr,
        dst_port: u16,
        seen: u128,
        now: u128,
    },
    CleanupUdp { now: u128 },
}

impl NatView {
    /// The table after an operation.
    pub open spec fn after(self, op: NatOp) -> NatView {
        match op {
            NatOp::Create { key, isn } => self.create(key, isn),
            NatOp::Close { key } => self.close(key),
            NatOp::SetState { key, state } => self.set_state(key, state),
            NatOp::AdvanceSeq { id, bytes } => self.advance_seq(id, bytes as int),
            NatOp::UpdateAck { id, ack } => self.update_ack(id, ack),
            NatOp::TrackUdp { src_ip, src_port, dst_ip, dst_port, seen, now } => self.track_udp(
                src_ip,
                src_port,
                dst_ip,
                dst_port,
                seen,
                now,
            ),
            NatOp::CleanupUdp { now } => self.cleanup_udp(now),
        }
    }

    /// The table after these operations, one after the other.
    pub open spec fn after_all(self, ops: Seq<NatOp>) -> NatView
        decreases ops.len(),
    {
        if ops.len() == 0 {
            self
        } else {
            self.after_all(ops.drop_last()).after(ops.last())
        }
    }
}

/// How many of the operations make a connection.
pub open spec fn creations(ops: Seq<NatOp>) -> nat
    decreases ops.len(),
{
    if ops.len() == 0 {
        0
    } else {
        creations(ops.drop_last()) + (if ops.last() is Create {
            1nat
        } else {
            0
        })
    }
}

/// Whatever is done to the table, IDs are given out one after the other: two
/// connections get the same ID only if 2^32 connections are made from the first of
/// them on, before the second.
pub proof fn law_ids_do_not_repeat(table: NatView, ops: Seq<NatOp>, i: int, j: int)
    requires
        0 <= i < j < ops.len(),
        ops[i] is Create,
        ops[j] is Create,
        creations(ops.subrange(i, j)) < 0x1_0000_0000,
    ensures
        table.after_all(ops.take(i)).next_id != table.after_all(ops.take(j)).next_id,
{
    let between = ops.subrange(i, j);
    lemma_next_id(table, ops, i, j);
    lemma_first_creation(between);
}

/// The ID that is given out next counts the connections that were made.
proof fn lemma_next_id(table: NatView, ops: Seq<NatOp>, i: int, j: int)
    requires
        0 <= i <= j <= ops.len(),
    ensures
        table.after_all(ops.take(j)).next_id == wrap_add(
            table.after_all(ops.take(i)).next_id,
            creations(ops.subrange(i, j)) as int,
        ),
    decreases j,
{
    if i < j {
        lemma_next_id(table, ops, i, j - 1);
        assert(ops.take(j).drop_last() =~= ops.take(j - 1));
        assert(ops.subrange(i, j).drop_last() =~= ops.subrange(i, j - 1));
    } else {
        assert(ops.subrange(i, j) =~= Seq::<NatOp>::empty());
    }
}

proof fn lemma_first_creation(ops: Seq<NatOp>)
    requires
        ops.len() > 0,
        ops[0] is Create,
    ensures
        creations(ops) > 0,
    decreases ops.len(),
{
    if ops.len() > 1 {
        lemma_first_creation(ops.drop_last());
    }
}

} // verus!
