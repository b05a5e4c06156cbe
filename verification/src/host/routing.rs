//! Routes: which one leads into the tunnel.

use vstd::prelude::*;

use crate::addr::{IpAddr, Ipv4Addr, Ipv6Addr};

verus! {

/// The destination of a route.
#[derive(Debug, Clone, Copy, PartialEq, Eq, Structural)]
pub enum RouteAddress {
    Inet(Ipv4Addr),
    Inet6(Ipv6Addr),
    Other,
}

/// An attribute of a route, as far as it is read here.
#[derive(Debug, Clone, Copy, PartialEq, Eq, Structural)]
pub enum RouteAttribute {
    /// The index of an interface.
    Iif(u32),
    Destination(RouteAddress),
    Other,
}

/// A route of the kernel's table.
#[derive(Debug)]
pub struct RouteMessage {
    pub destination_prefix_length: u8,
    pub attributes: Vec<RouteAttribute>,
}

/// The interface that the attributes name last, if any.
pub open spec fn last_interface(attributes: Seq<RouteAttribute>) -> Option<u32>
    decreases attributes.len(),
{
    if attributes.len() == 0 {
        None
    } else {
        match attributes.last() {
            RouteAttribute::Iif(index) => Some(index),
            _ => last_interface(attributes.drop_last()),
        }
    }
}

/// The destination that the attributes name last, if any.
pub open spec fn last_destination(attributes: Seq<RouteAttribute>) -> Option<RouteAddress>
    decreases attributes.len(),
{
    if attributes.len() == 0 {
        None
    } else {
        match attributes.last() {
            RouteAttribute::Destination(address) => Some(address),
            _ => last_destination(attributes.drop_last()),
        }
    }
}

/// The address of a subnet as the destination of a route.
pub open spec fn route_address(subnet: IpAddr) -> RouteAddress {
    match subnet {
        IpAddr::V4(a) => RouteAddress::Inet(a),
        IpAddr::V6(a) => RouteAddress::Inet6(a),
    }
}

/// Whether a route leads to this subnet through this interface.
pub open spec fn leads_to(route: RouteMessage, subnet: IpAddr, prefix: u8, if_index: u32) -> bool {
    &&& last_destination(route.attributes@) == Some(route_address(subnet))
    &&& last_interface(route.attributes@) == Some(if_index)
    &&& route.destination_prefix_length == prefix
}

/// The destination and the interface of a route, if it names both.
pub fn get_destination_and_interface_attributes(msg: &RouteMessage) -> (r: Option<
    (RouteAddress, u32),
>)
    ensures
        r == (match (last_destination(msg.attributes@), last_interface(msg.attributes@)) {
            (Some(address), Some(index)) => Some((address, index)),
            _ => None,
        }),
{
    let attributes: &Vec<RouteAttribute> = &msg.attributes;
    let mut address: Option<RouteAddress> = None;
    let mut index: Option<u32> = None;
    let mut k: usize = 0;
    assert(attributes@.take(0) =~= Seq::<RouteAttribute>::empty());
    while k < attributes.len()
        invariant
            k <= attributes@.len(),
            address == last_destination(attributes@.take(k as int)),
            index == last_interface(attributes@.take(k as int)),
        decreases attributes@.len() - k,
    {
        assert(attributes@.take(k + 1).drop_last() =~= attributes@.take(k as int));
        match attributes[k] {
            RouteAttribute::Iif(i) => {
                index = Some(i);
            },
            RouteAttribute::Destination(a) => {
                address = Some(a);
            },
            RouteAttribute::Other => {},
        }
        k += 1;
    }
    assert(attributes@.take(attributes@.len() as int) =~= attributes@);
    match (address, index) {
        (Some(a), Some(i)) => Some((a, i)),
        _ => None,
    }
}

/// What to do on the way through the routes.
#[derive(Debug, Clone, Copy, PartialEq, Eq, Structural)]
pub enum RemoveStep {
    /// Delete this route, and stop.
    Delete,
    /// Look at the next route.
    Next,
    /// There are no more routes, and ours was not among them.
    NotFound,
}

/// What to do with the next route, or at the end of the routes, to remove the route
/// to this subnet through this interface.
pub fn remove_route(
    route: Option<RouteMessage>,
    subnet: IpAddr,
    prefix: u8,
    if_index: u32,
) -> (r: RemoveStep)
    ensures
        r == (match route {
            Some(route) => if leads_to(route, subnet, prefix, if_index) {
                RemoveStep::Delete
            } else {
                RemoveStep::Next
            },
            None => RemoveStep::NotFound,
        }),
{
    let route: RouteMessage = match route {
        Some(route) => route,
        None => return RemoveStep::NotFound,
    };
    // Check if this is our route
    if let Some((address, index)) = get_destination_and_interface_attributes(&route) {
        let ours: bool = match (address, subnet) {
            (RouteAddress::Inet(a), IpAddr::V4(b)) => a == b,
            (RouteAddress::Inet6(a), IpAddr::V6(b)) => a == b,
            _ => false,
        };
        if ours && route.destination_prefix_length == prefix && index == if_index {
            return RemoveStep::Delete;
        }
    }
    RemoveStep::Next
}

} // verus!
