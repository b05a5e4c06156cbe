//! DNS forwarding: which local client waits for which answer.

use std::collections::HashMap;
use vstd::prelude::*;
use vstd::string::*;

use crate::addr::{IpAddr, SocketAddr};
use crate::host::nat_table;
use crate::protocol::{HostMessage, HostMessageView};
use crate::text;

verus! {

/// The pending DNS queries as a value.
#[verifier::ext_equal]
pub struct DnsView {
    /// The server that queries are forwarded to.
    pub server: IpAddr,
    /// The clients that wait for an answer, under the IDs of their queries.
    pub pending: Map<u32, SocketAddr>,
    /// The ID of the next query.
    pub next_id: u32,
}

impl DnsView {
    /// The state after a query came in from `sender`.
    pub open spec fn query(self, sender: SocketAddr) -> DnsView {
        DnsView {
            pending: self.pending.insert(self.next_id, sender),
            next_id: nat_table::wrap_add(self.next_id, 1),
            ..self
        }
    }

    /// The state in which nobody waits for the answer to a query.
    pub open spec fn forget(self, id: u32) -> DnsView {
        DnsView { pending: self.pending.remove(id), ..self }
    }

    /// What goes to the remote end for the next query.
    pub open spec fn question(self, data: Seq<u8>) -> HostMessageView {
        HostMessageView::DnsQuery { id: self.next_id, server: self.server, data }
    }
}

/// State for tracking pending DNS queries.
pub struct DnsState {
    dns_server: IpAddr,
    pending: HashMap<u32, SocketAddr>,
    next_id: u32,
}

impl View for DnsState {
    type V = DnsView;

    closed spec fn view(&self) -> DnsView {
        DnsView { server: self.dns_server, pending: self.pending@, next_id: self.next_id }
    }
}

impl DnsState {
    /// No query is pending yet.
    pub fn new(dns_server: IpAddr) -> (r: DnsState)
        ensures
            r@.server == dns_server,
            r@.pending == Map::<u32, SocketAddr>::empty(),
            r@.next_id == 0,
    {
        DnsState { dns_server, pending: HashMap::new(), next_id: 0 }
    }

    /// Handle an incoming DNS query from a local client.
    /// Assigns an ID, tracks the sender, and gives the message for the remote.
    pub fn handle_query(&mut self, data: &[u8], sender: SocketAddr) -> (msg: HostMessage)
        ensures
            msg@ == old(self)@.question(data@),
            final(self)@ == old(self)@.query(sender),
    {
        broadcast use vstd::std_specs::hash::group_hash_axioms;

        let id: u32 = self.next_id;
        self.next_id = id.wrapping_add(1);
        self.pending.insert(id, sender);
        HostMessage::DnsQuery {
            id,
            server: self.dns_server,
            data: vstd::slice::slice_to_vec(data),
        }
    }

    /// Stop waiting for the answer to a query that could not be sent.
    pub fn query_failed(&mut self, id: u32)
        ensures
            final(self)@ == old(self)@.forget(id),
    {
        broadcast use vstd::std_specs::hash::group_hash_axioms;

        self.pending.remove(&id);
    }

    /// Handle a DNS response from the remote: the original querier, who gets it, if
    /// the query is known.
    pub fn handle_response(&mut self, id: u32) -> (client: Option<SocketAddr>)
        ensures
            client == old(self)@.pending.get(id),
            final(self)@ == old(self)@.forget(id),
    {
        broadcast use vstd::std_specs::hash::group_hash_axioms;

        self.pending.remove(&id)
    }
}

/// What can happen to the pending queries.
pub enum DnsStep {
    /// A query comes in from a client.
    Query { sender: SocketAddr },
    /// A query is answered, or could not be sent.
    Forget { id: u32 },
}

/// The state after these steps.
pub open spec fn dns_after_steps(dns: DnsView, steps: Seq<DnsStep>) -> DnsView
    decreases steps.len(),
{
    if steps.len() == 0 {
        dns
    } else {
        let before = dns_after_steps(dns, steps.drop_last());
        match steps.last() {
            DnsStep::Query { sender } => before.query(sender),
            DnsStep::Forget { id } => before.forget(id),
        }
    }
}

/// How many of the steps are queries.
pub open spec fn query_count(steps: Seq<DnsStep>) -> nat
    decreases steps.len(),
{
    if steps.len() == 0 {
        0
    } else {
        query_count(steps.drop_last()) + (if steps.last() is Query {
            1nat
        } else {
            0
        })
    }
}

/// How many queries come in before one gets this ID.
pub open spec fn queries_before(next_id: u32, id: u32) -> nat {
    ((id - next_id) % 0x1_0000_0000) as nat
}

/// While an ID is not given out again, who waits under it changes only by being
/// forgotten.
proof fn lemma_pending_under(dns: DnsView, steps: Seq<DnsStep>, id: u32)
    requires
        query_count(steps) <= queries_before(dns.next_id, id),
    ensures
        ({
            let after = dns_after_steps(dns, steps);
            &&& after.next_id == nat_table::wrap_add(dns.next_id, query_count(steps) as int)
            &&& dns.pending.get(id) is None ==> after.pending.get(id) is None
            &&& !steps.contains(DnsStep::Forget { id }) ==> after.pending.get(id)
                == dns.pending.get(id)
        }),
    decreases steps.len(),
{
    if steps.len() > 0 {
        let earlier = steps.drop_last();
        lemma_pending_under(dns, earlier, id);
        assert(steps.contains(steps.last()));
        if earlier.contains(DnsStep::Forget { id }) {
            let k = choose|k: int|
                0 <= k < earlier.len() && earlier[k] == (DnsStep::Forget { id });
            assert(steps[k] == (DnsStep::Forget { id }));
        }
    }
}

/// An answer goes to the client whose query carried its ID, whatever queries came in
/// and whatever other queries were answered in between, in any order, as long as the
/// ID has not come up again.
pub proof fn law_answer_goes_to_the_querier(dns: DnsView, sender: SocketAddr, later: Seq<DnsStep>)
    requires
        1 + query_count(later) < 0x1_0000_0000,
        !later.contains(DnsStep::Forget { id: dns.next_id }),
    ensures
        dns_after_steps(dns.query(sender), later).pending.get(dns.next_id) == Some(sender),
{
    lemma_pending_under(dns.query(sender), later, dns.next_id);
}

/// An answer is passed on once: after it, nobody waits under its ID until the ID
/// comes up again.
pub proof fn law_answer_is_passed_on_once(
    dns: DnsView,
    sender: SocketAddr,
    before: Seq<DnsStep>,
    later: Seq<DnsStep>,
)
    requires
        1 + query_count(before) + query_count(later) < 0x1_0000_0000,
    ensures
        ({
            let answered = dns_after_steps(dns.query(sender), before).forget(dns.next_id);
            dns_after_steps(answered, later).pending.get(dns.next_id) is None
        }),
{
    lemma_pending_under(dns.query(sender), before, dns.next_id);
    let answered = dns_after_steps(dns.query(sender), before).forget(dns.next_id);
    lemma_pending_under(answered, later, dns.next_id);
}

/// Under an ID that was never given out nobody waits.
pub proof fn law_unknown_id_finds_nobody(server: IpAddr, steps: Seq<DnsStep>, id: u32)
    requires
        query_count(steps) <= id,
    ensures
        ({
            let start = DnsView { server, pending: Map::empty(), next_id: 0 };
            dns_after_steps(start, steps).pending.get(id) is None
        }),
{
    lemma_pending_under(DnsView { server, pending: Map::empty(), next_id: 0 }, steps, id);
}

/// The words of a command line.
pub open spec fn words(command: Seq<String>) -> Seq<Seq<char>> {
    command.map_values(|word: String| word@)
}

/// The address that the local forwarder listens at.
pub open spec fn listen_address(port: u16) -> Seq<char> {
    "127.0.0.1:"@ + text::decimal(port as nat)
}

/// The domains whose queries go to the forwarder: those that are given, or all.
pub open spec fn routed_domains(domains: Seq<String>) -> Seq<Seq<char>> {
    if domains.len() == 0 {
        seq!["~."@]
    } else {
        domains.map_values(|domain: String| "~"@ + domain@)
    }
}

/// Register our DNS forwarder with systemd-resolved on the given TUN interface: the
/// arguments of the two `resolvectl` commands that do so, in order.
pub fn register_dns(tun_name: &str, listen_port: u16, domains: &Vec<String>) -> (r: (
    Vec<String>,
    Vec<String>,
))
    ensures
        words(r.0@) == seq!["dns"@, tun_name@, listen_address(listen_port)],
        words(r.1@) == seq!["domain"@, tun_name@] + routed_domains(domains@),
{
    // Set our local forwarder as the DNS server for this link
    let mut address: String = "127.0.0.1:".to_owned();
    text::push_decimal(&mut address, listen_port as u64);
    let mut server: Vec<String> = Vec::new();
    server.push("dns".to_owned());
    server.push(tun_name.to_owned());
    server.push(address);
    let mut routed: Vec<String> = Vec::new();
    routed.push("domain".to_owned());
    routed.push(tun_name.to_owned());
    if domains.len() == 0 {
        // Set catch-all domain so all queries go through us
        routed.push("~.".to_owned());
        assert(words(routed@) =~= seq!["domain"@, tun_name@] + routed_domains(domains@));
    } else {
        let mut i: usize = 0;
        while i < domains.len()
            invariant
                domains@.len() > 0,
                i <= domains@.len(),
                words(routed@) =~= seq!["domain"@, tun_name@] + routed_domains(domains@).take(
                    i as int,
                ),
            decreases domains@.len() - i,
        {
            let ghost before = words(routed@);
            let mut domain: String = "~".to_owned();
            domain.append(domains[i].as_str());
            routed.push(domain);
            assert(words(routed@) =~= before.push("~"@ + domains@[i as int]@));
            i += 1;
        }
        assert(routed_domains(domains@).take(i as int) =~= routed_domains(domains@));
    }
    assert(words(server@) =~= seq!["dns"@, tun_name@, listen_address(listen_port)]);
    (server, routed)
}

/// Unregister DNS configuration from the TUN interface: the arguments of the
/// `resolvectl` command that does so.
pub fn unregister_dns(tun_name: &str) -> (r: Vec<String>)
    ensures
        words(r@) == seq!["revert"@, tun_name@],
{
    let mut command: Vec<String> = Vec::new();
    command.push("revert".to_owned());
    command.push(tun_name.to_owned());
    assert(words(command@) =~= seq!["revert"@, tun_name@]);
    command
}

} // verus!
