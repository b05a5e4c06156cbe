//! What each operation of the NAT table does to each entry.

use vstd::prelude::*;

use crate::addr::IpAddr;
use crate::host::nat_table;
use crate::host::nat_table::{ConnectionState, NatView, TcpKey, UdpReturnKey};

verus! {

/// Whether two numbers are the same sequence number, counted around 2^32.
pub open spec fn congruent(x: int, y: int) -> bool {
    (x - y) % 0x1_0000_0000 == 0
}

/// A sum of sequence numbers is the sum of the numbers, counted around 2^32.
pub proof fn law_sequence_numbers_add_up(a: u32, b: int)
    ensures
        congruent(nat_table::wrap_add(a, b) as int, a + b),
        0 <= a + b < 0x1_0000_0000 ==> nat_table::wrap_add(a, b) == a + b,
{
}

/// Whether two tables have the same UDP mappings, IDs and next ID, and the same
/// connections but for the one under `key`.
pub open spec fn same_but_for(before: NatView, after: NatView, key: TcpKey) -> bool {
    &&& after.udp == before.udp
    &&& after.ids == before.ids
    &&& after.next_id == before.next_id
    &&& forall|other: TcpKey|
        other != key ==> #[trigger] after.flows.get(other) == before.flows.get(other)
}

/// A new connection stands under its key and its ID, which is the next one; it starts
/// at 1000, expects what follows the client's SYN, and waits for the remote. No other
/// connection, ID or mapping changes.
pub proof fn law_create_makes_one_entry(table: NatView, key: TcpKey, isn: u32)
    ensures
        ({
            let after = table.create(key, isn);
            &&& after.flows.contains_key(key)
            &&& after.flows[key].id == table.next_id
            &&& after.flows[key].state == ConnectionState::SynSent
            &&& after.flows[key].seq == 1000
            &&& congruent(after.flows[key].ack as int, isn + 1)
            &&& after.ids.get(table.next_id) == Some(key)
            &&& congruent(after.next_id as int, table.next_id + 1)
            &&& after.udp == table.udp
            &&& forall|other: TcpKey|
                other != key ==> #[trigger] after.flows.get(other) == table.flows.get(other)
            &&& forall|id: u32|
                id != table.next_id ==> #[trigger] after.ids.get(id) == table.ids.get(id)
        }),
{
}

/// Closing takes away the connection under the key and its ID, and nothing else; where
/// there is no such connection, nothing at all.
pub proof fn law_close_takes_one_entry(table: NatView, key: TcpKey)
    ensures
        ({
            let after = table.close(key);
            &&& !after.flows.contains_key(key)
            &&& after.udp == table.udp
            &&& after.next_id == table.next_id
            &&& forall|other: TcpKey|
                other != key ==> #[trigger] after.flows.get(other) == table.flows.get(other)
            &&& table.flows.contains_key(key) ==> !after.ids.contains_key(table.flows[key].id)
            &&& table.flows.contains_key(key) ==> forall|id: u32|
                id != table.flows[key].id ==> #[trigger] after.ids.get(id) == table.ids.get(id)
            &&& !table.flows.contains_key(key) ==> after == table
        }),
{
}

/// Setting the state changes the state of the connection under the key, and nothing
/// else.
pub proof fn law_set_state_changes_the_state(table: NatView, key: TcpKey, state: ConnectionState)
    ensures
        ({
            let after = table.set_state(key, state);
            &&& same_but_for(table, after, key)
            &&& after.flows.contains_key(key) == table.flows.contains_key(key)
            &&& table.flows.contains_key(key) ==> {
                &&& after.flows[key].state == state
                &&& after.flows[key].id == table.flows[key].id
                &&& after.flows[key].seq == table.flows[key].seq
                &&& after.flows[key].ack == table.flows[key].ack
            }
        }),
{
}

/// Advancing adds to the sequence number of the connection that the ID leads to, and
/// updating replaces its acknowledgment number; nothing else changes. An ID that leads
/// nowhere changes nothing.
pub proof fn law_numbers_change_alone(table: NatView, id: u32, n: int, ack: u32)
    ensures
        ({
            let advanced = table.advance_seq(id, n);
            let updated = table.update_ack(id, ack);
            if table.ids.contains_key(id) && table.flows.contains_key(table.ids[id]) {
                let key = table.ids[id];
                &&& same_but_for(table, advanced, key)
                &&& same_but_for(table, updated, key)
                &&& advanced.flows.contains_key(key)
                &&& updated.flows.contains_key(key)
                &&& congruent(advanced.flows[key].seq as int, table.flows[key].seq + n)
                &&& advanced.flows[key].ack == table.flows[key].ack
                &&& advanced.flows[key].state == table.flows[key].state
                &&& advanced.flows[key].id == table.flows[key].id
                &&& updated.flows[key].ack == ack
                &&& updated.flows[key].seq == table.flows[key].seq
                &&& updated.flows[key].state == table.flows[key].state
                &&& updated.flows[key].id == table.flows[key].id
                &&& table.seq(id) == table.flows[key].seq
                &&& table.ack(id) == table.flows[key].ack
                &&& table.state(key) == Some(table.flows[key].state)
            } else {
                &&& advanced == table
                &&& updated == table
                &&& table.seq(id) == 0
                &&& table.ack(id) == 0
            }
        }),
{
}

/// Tracking a datagram notes its sender under the ports and the destination, with the
/// time; every other mapping stays as it is if it was used less than 60 seconds before,
/// else it goes. Connections are not touched.
pub proof fn law_track_notes_the_sender(
    table: NatView,
    src_ip: IpAddr,
    src_port: u16,
    dst_ip: IpAddr,
    dst_port: u16,
    seen: u128,
    now: u128,
)
    ensures
        ({
            let key = (src_port, dst_ip, dst_port);
            let after = table.track_udp(src_ip, src_port, dst_ip, dst_port, seen, now);
            &&& after.flows == table.flows
            &&& after.ids == table.ids
            &&& after.next_id == table.next_id
            &&& after.udp.contains_key(key) <==> now - seen < 60_000_000_000
            &&& after.udp.contains_key(key) ==> after.udp[key].src_ip == src_ip
                && after.udp[key].last_activity == seen
            &&& forall|other: UdpReturnKey|
                other != key ==> #[trigger] after.udp.get(other) == (if table.udp.contains_key(other)
                    && now - table.udp[other].last_activity < 60_000_000_000 {
                    table.udp.get(other)
                } else {
                    None
                })
        }),
{
}

/// A cleanup touches no connection.
pub proof fn law_cleanup_leaves_connections_alone(table: NatView, now: u128)
    ensures
        table.cleanup_udp(now).flows == table.flows,
        table.cleanup_udp(now).ids == table.ids,
        table.cleanup_udp(now).next_id == table.next_id,
{
}

/// The empty table holds nothing, and its first ID is 1.
pub proof fn law_empty_table_holds_nothing(key: TcpKey, id: u32, udp: UdpReturnKey)
    ensures
        !NatView::empty().flows.contains_key(key),
        !NatView::empty().ids.contains_key(id),
        !NatView::empty().udp.contains_key(udp),
        NatView::empty().next_id == 1,
{
}

} // verus!
