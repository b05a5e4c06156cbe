//! The hash tables of both ends, and the clock that ages UDP mappings.
//!
//! What the functions of this module promise is believed, not proved. They take
//! a table by `&mut` where they change it, so that no other thread can hold it.

use std::time::Instant;
use vstd::prelude::*;

use dashmap::DashMap;

use crate::host::nat_table;
use crate::host::nat_table::{mapping_is_fresh, TcpConnection, TcpKey, UdpMapping};

verus! {

/// A TCP key as numbers: family and bits of the source address, source port,
/// family and bits of the destination address, destination port.
pub type TcpKeyCode = (u8, u128, u16, u8, u128, u16);

/// A UDP return key as numbers: source port, family and bits of the destination
/// address, destination port.
pub type UdpKeyCode = (u16, u8, u128, u16);

/// The sharded hash map of the dashmap crate.
#[verifier::external_type_specification]
#[verifier::external_body]
#[verifier::reject_recursive_types(K)]
#[verifier::reject_recursive_types(V)]
#[verifier::reject_recursive_types(S)]
pub struct ExDashMap<K, V, S>(dashmap::DashMap<K, V, S>);

/// A moment of the monotonic clock.
#[verifier::external_type_specification]
#[verifier::external_body]
pub struct ExInstant(std::time::Instant);

/// The connections that a table of TCP connections holds.
pub uninterp spec fn flow_entries(m: DashMap<TcpKeyCode, TcpConnection>) -> Map<
    TcpKeyCode,
    TcpConnection,
>;

/// The keys that a table of connection IDs holds.
pub uninterp spec fn id_entries(m: DashMap<u32, TcpKey>) -> Map<u32, TcpKey>;

/// The mappings that a table of UDP mappings holds.
pub uninterp spec fn udp_entries(m: DashMap<UdpKeyCode, UdpMapping>) -> Map<UdpKeyCode, UdpMapping>;

/// The slots that a table of remote connections holds.
pub uninterp spec fn slot_entries(m: DashMap<u32, u64>) -> Map<u32, u64>;

/// `dashmap::DashMap::new`. Claimed: the table is empty.
#[verifier::external_body]
pub(crate) fn new_flows() -> (m: DashMap<TcpKeyCode, TcpConnection>)
    ensures
        (flow_entries(m) == Map::<TcpKeyCode, TcpConnection>::empty()),
{
    DashMap::new()
}

/// `dashmap::DashMap::get`. Claimed: the value under the key, if there is one.
#[verifier::external_body]
pub(crate) fn get_flow(m: &DashMap<TcpKeyCode, TcpConnection>, key: TcpKeyCode) -> (r: Option<
    TcpConnection,
>)
    ensures
        r == flow_entries(*m).get(key),
{
    m.get(&key).map(|entry| *entry.value())
}

/// `dashmap::DashMap::insert`. Claimed: the value stands under the key, in the
/// place of any other, and nothing else changes.
#[verifier::external_body]
pub(crate) fn insert_flow(
    m: &mut DashMap<TcpKeyCode, TcpConnection>,
    key: TcpKeyCode,
    value: TcpConnection,
)
    ensures
        flow_entries(*final(m)) == flow_entries(*old(m)).insert(key, value),
{
    m.insert(key, value);
}

/// `dashmap::DashMap::remove`. Claimed: the key is gone, nothing else changes, and
/// the value that stood under it comes back, if there was one.
#[verifier::external_body]
pub(crate) fn remove_flow(m: &mut DashMap<TcpKeyCode, TcpConnection>, key: TcpKeyCode) -> (r: Option<
    TcpConnection,
>)
    ensures
        flow_entries(*final(m)) == flow_entries(*old(m)).remove(key),
        r == flow_entries(*old(m)).get(key),
{
    m.remove(&key).map(|entry| entry.1)
}

/// `dashmap::DashMap::new`. Claimed: the table is empty.
#[verifier::external_body]
pub(crate) fn new_ids() -> (m: DashMap<u32, TcpKey>)
    ensures
        (id_entries(m) == Map::<u32, TcpKey>::empty()),
{
    DashMap::new()
}

/// `dashmap::DashMap::get`. Claimed: the value under the key, if there is one.
#[verifier::external_body]
pub(crate) fn get_id(m: &DashMap<u32, TcpKey>, id: u32) -> (r: Option<TcpKey>)
    ensures
        r == id_entries(*m).get(id),
{
    m.get(&id).map(|entry| *entry.value())
}

/// `dashmap::DashMap::insert`. Claimed: the value stands under the key, in the
/// place of any other, and nothing else changes.
#[verifier::external_body]
pub(crate) fn insert_id(m: &mut DashMap<u32, TcpKey>, id: u32, value: TcpKey)
    ensures
        id_entries(*final(m)) == id_entries(*old(m)).insert(id, value),
{
    m.insert(id, value);
}

/// `dashmap::DashMap::remove`. Claimed: the key is gone and nothing else changes.
#[verifier::external_body]
pub(crate) fn remove_id(m: &mut DashMap<u32, TcpKey>, id: u32)
    ensures
        id_entries(*final(m)) == id_entries(*old(m)).remove(id),
{
    m.remove(&id);
}

/// `dashmap::DashMap::new`. Claimed: the table is empty.
#[verifier::external_body]
pub(crate) fn new_udp() -> (m: DashMap<UdpKeyCode, UdpMapping>)
    ensures
        (udp_entries(m) == Map::<UdpKeyCode, UdpMapping>::empty()),
{
    DashMap::new()
}

/// `dashmap::DashMap::get`. Claimed: the value under the key, if there is one.
#[verifier::external_body]
pub(crate) fn get_udp(m: &DashMap<UdpKeyCode, UdpMapping>, key: UdpKeyCode) -> (r: Option<UdpMapping>)
    ensures
        r == udp_entries(*m).get(key),
{
    m.get(&key).map(|entry| *entry.value())
}

/// `dashmap::DashMap::insert`. Claimed: the value stands under the key, in the
/// place of any other, and nothing else changes.
#[verifier::external_body]
pub(crate) fn insert_udp(m: &mut DashMap<UdpKeyCode, UdpMapping>, key: UdpKeyCode, value: UdpMapping)
    ensures
        udp_entries(*final(m)) == udp_entries(*old(m)).insert(key, value),
{
    m.insert(key, value);
}

/// `dashmap::DashMap::retain`. Claimed: exactly the mappings that are fresh at
/// `now` stay, unchanged.
#[verifier::external_body]
pub(crate) fn retain_fresh_udp(m: &mut DashMap<UdpKeyCode, UdpMapping>, now: u128)
    ensures
        udp_entries(*final(m)) == fresh_entries(udp_entries(*old(m)), now),
{
    m.retain(|_, mapping| mapping_is_fresh(mapping.last_activity, now));
}

/// The mappings among `entries` that are fresh at `now`.
pub open spec fn fresh_entries(entries: Map<UdpKeyCode, UdpMapping>, now: u128) -> Map<
    UdpKeyCode,
    UdpMapping,
> {
    entries.restrict(
        entries.dom().filter(|key: UdpKeyCode| nat_table::fresh(entries[key].last_activity, now)),
    )
}

/// `dashmap::DashMap::new`. Claimed: the table is empty.
#[verifier::external_body]
pub(crate) fn new_slots() -> (m: DashMap<u32, u64>)
    ensures
        (slot_entries(m) == Map::<u32, u64>::empty()),
{
    DashMap::new()
}

/// `dashmap::DashMap::get`. Claimed: the value under the key, if there is one.
#[verifier::external_body]
pub(crate) fn get_slot(m: &DashMap<u32, u64>, id: u32) -> (r: Option<u64>)
    ensures
        r == slot_entries(*m).get(id),
{
    m.get(&id).map(|entry| *entry.value())
}

/// `dashmap::DashMap::insert`. Claimed: the value stands under the key, in the
/// place of any other, which comes back, and nothing else changes.
#[verifier::external_body]
pub(crate) fn insert_slot(m: &mut DashMap<u32, u64>, id: u32, slot: u64) -> (r: Option<u64>)
    ensures
        slot_entries(*final(m)) == slot_entries(*old(m)).insert(id, slot),
        r == slot_entries(*old(m)).get(id),
{
    m.insert(id, slot)
}

/// `dashmap::DashMap::remove`. Claimed: the key is gone, nothing else changes, and
/// the value that stood under it comes back, if there was one.
#[verifier::external_body]
pub(crate) fn remove_slot(m: &mut DashMap<u32, u64>, id: u32) -> (r: Option<u64>)
    ensures
        slot_entries(*final(m)) == slot_entries(*old(m)).remove(id),
        r == slot_entries(*old(m)).get(id),
{
    m.remove(&id).map(|entry| entry.1)
}

/// `std::time::Instant::now`. Nothing is claimed of the moment.
#[verifier::external_body]
pub(crate) fn clock_start() -> (t: Instant) {
    Instant::now()
}

/// `std::time::Instant::elapsed`, in nanoseconds. Nothing is claimed of the time.
#[verifier::external_body]
pub(crate) fn clock_nanos(start: &Instant) -> (t: u128) {
    start.elapsed().as_nanos()
}

} // verus!
