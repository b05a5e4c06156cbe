//! What host mode sets up and takes down, and in which order.

use vstd::arithmetic::power2;
use vstd::prelude::*;

use crate::addr::IpAddr;
use crate::cli;
use crate::cli::{CliError, HostArgs};
use crate::host::dns;
use crate::host::routing;
use crate::host::routing::{RouteAddress, RouteAttribute, RouteMessage};
use crate::host::setup;
use crate::host::setup::{Course, HostPlan, OnFailure, SetupStep};
use crate::host::tun;
use crate::text;

verus! {

/// A list of texts stands for subnets exactly if each text stands for one; they are then
/// the subnets, in order.
pub proof fn law_each_subnet_is_parsed(list: Seq<String>)
    ensures
        setup::subnets_of(list) is Ok <==> forall|i: int|
            0 <= i < list.len() ==> cli::cidr_of((#[trigger] list[i])@) is Ok,
        setup::subnets_of(list) matches Ok(subnets) ==> {
            &&& subnets.len() == list.len()
            &&& forall|i: int|
                0 <= i < list.len() ==> cli::cidr_of((#[trigger] list[i])@) == Ok::<
                    (IpAddr, u8),
                    CliError,
                >(subnets[i])
        },
    decreases list.len(),
{
    if list.len() > 0 {
        let earlier = list.drop_last();
        law_each_subnet_is_parsed(earlier);
        assert forall|i: int| 0 <= i < earlier.len() implies #[trigger] earlier[i] == list[i] by {}
        assert(list.last() == list[list.len() - 1]);
        if setup::subnets_of(earlier) is Err {
            let k = choose|k: int|
                0 <= k < earlier.len() && !(cli::cidr_of((#[trigger] earlier[k])@) is Ok);
            assert(!(cli::cidr_of(list[k]@) is Ok));
        } else {
            assert forall|i: int| 0 <= i < earlier.len() implies cli::cidr_of(
                (#[trigger] list[i])@,
            ) == Ok::<(IpAddr, u8), CliError>(setup::subnets_of(earlier)->Ok_0[i]) by {
                assert(earlier[i] == list[i]);
            }
        }
    }
}

/// The first text that stands for no subnet says what is wrong.
#[verifier::spinoff_prover]
pub proof fn law_the_first_wrong_subnet_decides(list: Seq<String>, i: int, error: CliError)
    requires
        0 <= i < list.len(),
        cli::cidr_of(list[i]@) == Err::<(IpAddr, u8), CliError>(error),
        forall|k: int| 0 <= k < i ==> cli::cidr_of((#[trigger] list[k])@) is Ok,
    ensures
        setup::subnets_of(list) == Err::<Seq<(IpAddr, u8)>, CliError>(error),
{
    let before = list.take(i);
    let through = list.take(i + 1);
    assert forall|k: int| 0 <= k < before.len() implies cli::cidr_of(
        (#[trigger] before[k])@,
    ) is Ok by {
        assert(before[k] == list[k]);
    }
    law_each_subnet_is_parsed(before);
    assert(through.drop_last() =~= before);
    assert(through.last() == list[i]);
    setup::lemma_first_fault(list, i + 1, error);
}

/// What is wrong with the arguments is what is wrong with the remote; or else with the
/// address of the interface; or else with the subnets. Where nothing is, they make a
/// plan.
pub proof fn law_which_fault_is_told(args: HostArgs)
    ensures
        match cli::remote_of(args.remote@) {
            Err(e) => setup::fault_of(args) == Some(e),
            Ok(_) => match cli::cidr_of(args.tun_ip@) {
                Err(e) => setup::fault_of(args) == Some(e),
                Ok(_) => match setup::subnets_of(args.subnets@) {
                    Err(e) => setup::fault_of(args) == Some(e),
                    Ok(_) => setup::fault_of(args) is None,
                },
            },
        },
{
}

/// A plan holds what the arguments say.
pub proof fn law_the_plan_is_what_was_asked_for(args: HostArgs, plan: HostPlan)
    requires
        setup::planned(args, plan),
    ensures
        plan.ssh.user == args.user,
        plan.ssh.identity == args.identity,
        plan.ssh.remote_binary == args.remote_binary,
        plan.tun_name == args.tun_name,
        plan.dns == args.dns,
        plan.dns_domains == args.dns_domains,
        cli::remote_of(args.remote@) == Ok::<(Seq<char>, u16), CliError>(
            (plan.ssh.host@, plan.ssh.port),
        ),
        cli::cidr_of(args.tun_ip@) == Ok::<(IpAddr, u8), CliError>(plan.tun_ip),
        plan.subnets@.len() == args.subnets@.len(),
        forall|i: int|
            0 <= i < args.subnets@.len() ==> cli::cidr_of((#[trigger] args.subnets@[i])@) == Ok::<
                (IpAddr, u8),
                CliError,
            >(plan.subnets@[i]),
{
    law_each_subnet_is_parsed(args.subnets@);
}

/// The steps of host mode: connect, create the interface, add each route in order, make
/// the DNS forwarder known if there is one, run the loop, take the DNS settings back if
/// there are any, and remove each route in order.
pub proof fn law_the_order_of_the_steps(subnets: Seq<(IpAddr, u8)>, with_dns: bool)
    ensures
        ({
            let steps = setup::script(subnets, with_dns);
            let n = subnets.len() as int;
            let first_removal: int = if with_dns {
                n + 5
            } else {
                n + 3
            };
            &&& steps.len() == first_removal + n
            &&& steps[0] == SetupStep::Connect
            &&& steps[1] == SetupStep::CreateTun
            &&& forall|i: int|
                0 <= i < n ==> steps[2 + i] == (SetupStep::AddRoute {
                    subnet: (#[trigger] subnets[i]).0,
                    prefix: subnets[i].1,
                })
            &&& with_dns ==> steps[n + 2] == SetupStep::RegisterDns
            &&& with_dns ==> steps[n + 3] == SetupStep::Loop
            &&& with_dns ==> steps[n + 4] == SetupStep::UnregisterDns
            &&& !with_dns ==> steps[n + 2] == SetupStep::Loop
            &&& forall|i: int|
                0 <= i < n ==> steps[first_removal + i] == (SetupStep::RemoveRoute {
                    subnet: (#[trigger] subnets[i]).0,
                    prefix: subnets[i].1,
                })
        }),
{
}

/// A step that succeeds changes nothing about the result. One that sets something up
/// ends the program with its error if it fails; the loop passes its error on to the
/// end; one that takes something down is only warned of.
pub proof fn law_what_a_failure_means<E>(
    step: SetupStep,
    outcome: Result<(), E>,
    so_far: Result<(), E>,
)
    ensures
        outcome is Ok ==> setup::course_after(step, outcome, so_far) == Course::GoOn(so_far),
        outcome matches Err(e) ==> (match step {
            SetupStep::Connect => setup::course_after(step, outcome, so_far) == Course::End(
                Err::<(), E>(e),
            ),
            SetupStep::CreateTun => setup::course_after(step, outcome, so_far) == Course::End(
                Err::<(), E>(e),
            ),
            SetupStep::AddRoute { .. } => setup::course_after(step, outcome, so_far)
                == Course::End(Err::<(), E>(e)),
            SetupStep::RegisterDns => setup::course_after(step, outcome, so_far) == Course::End(
                Err::<(), E>(e),
            ),
            SetupStep::Loop => setup::course_after(step, outcome, so_far) == Course::GoOn(
                Err::<(), E>(e),
            ),
            SetupStep::UnregisterDns => setup::course_after(step, outcome, so_far)
                == Course::GoOn(so_far),
            SetupStep::RemoveRoute { .. } => setup::course_after(step, outcome, so_far)
                == Course::GoOn(so_far),
        }),
        setup::failure_means(step) == OnFailure::Stop <==> step is Connect || step is CreateTun
            || step is AddRoute || step is RegisterDns,
        setup::failure_means(step) == OnFailure::StopAfterCleanup <==> step is Loop,
        setup::failure_means(step) == OnFailure::Warn <==> step is UnregisterDns
            || step is RemoveRoute,
{
}

/// Whether the attributes of a route name this interface, and none behind it.
pub open spec fn names_interface(attributes: Seq<RouteAttribute>, index: u32) -> bool {
    exists|k: int|
        0 <= k < attributes.len() && #[trigger] attributes[k] == RouteAttribute::Iif(index)
            && forall|j: int| k < j < attributes.len() ==> !((#[trigger] attributes[j]) is Iif)
}

/// Whether the attributes of a route name this destination, and none behind it.
pub open spec fn names_destination(attributes: Seq<RouteAttribute>, address: RouteAddress) -> bool {
    exists|k: int|
        0 <= k < attributes.len() && #[trigger] attributes[k] == RouteAttribute::Destination(address)
            && forall|j: int|
            k < j < attributes.len() ==> !((#[trigger] attributes[j]) is Destination)
}

proof fn lemma_interface(attributes: Seq<RouteAttribute>, index: u32)
    ensures
        routing::last_interface(attributes) == Some(index) <==> names_interface(attributes, index),
    decreases attributes.len(),
{
    if attributes.len() > 0 {
        let earlier = attributes.drop_last();
        let last = attributes[attributes.len() - 1];
        lemma_interface(earlier, index);
        if last is Iif {
            if last == RouteAttribute::Iif(index) {
                assert(names_interface(attributes, index));
            }
        } else {
            if names_interface(earlier, index) {
                let k = choose|k: int|
                    0 <= k < earlier.len() && #[trigger] earlier[k] == RouteAttribute::Iif(index)
                        && forall|j: int| k < j < earlier.len() ==> !((#[trigger] earlier[j]) is Iif);
                assert(attributes[k] == RouteAttribute::Iif(index));
                assert forall|j: int| k < j < attributes.len() implies !((
                #[trigger] attributes[j]) is Iif) by {
                    if j < earlier.len() {
                        assert(earlier[j] == attributes[j]);
                    }
                }
                assert(names_interface(attributes, index));
            }
            if names_interface(attributes, index) {
                let k = choose|k: int|
                    0 <= k < attributes.len() && #[trigger] attributes[k] == RouteAttribute::Iif(
                        index,
                    ) && forall|j: int|
                        k < j < attributes.len() ==> !((#[trigger] attributes[j]) is Iif);
                assert(earlier[k] == RouteAttribute::Iif(index));
                assert forall|j: int| k < j < earlier.len() implies !((
                #[trigger] earlier[j]) is Iif) by {
                    assert(earlier[j] == attributes[j]);
                }
                assert(names_interface(earlier, index));
            }
        }
    }
}

proof fn lemma_destination(attributes: Seq<RouteAttribute>, address: RouteAddress)
    ensures
        routing::last_destination(attributes) == Some(address) <==> names_destination(
            attributes,
            address,
        ),
    decreases attributes.len(),
{
    if attributes.len() > 0 {
        let earlier = attributes.drop_last();
        let last = attributes[attributes.len() - 1];
        lemma_destination(earlier, address);
        if last is Destination {
            if last == RouteAttribute::Destination(address) {
                assert(names_destination(attributes, address));
            }
        } else {
            if names_destination(earlier, address) {
                let k = choose|k: int|
                    0 <= k < earlier.len() && #[trigger] earlier[k] == RouteAttribute::Destination(
                        address,
                    ) && forall|j: int|
                        k < j < earlier.len() ==> !((#[trigger] earlier[j]) is Destination);
                assert(attributes[k] == RouteAttribute::Destination(address));
                assert forall|j: int| k < j < attributes.len() implies !((
                #[trigger] attributes[j]) is Destination) by {
                    if j < earlier.len() {
                        assert(earlier[j] == attributes[j]);
                    }
                }
                assert(names_destination(attributes, address));
            }
            if names_destination(attributes, address) {
                let k = choose|k: int|
                    0 <= k < attributes.len() && #[trigger] attributes[k]
                        == RouteAttribute::Destination(address) && forall|j: int|
                        k < j < attributes.len() ==> !((#[trigger] attributes[j]) is Destination);
                assert(earlier[k] == RouteAttribute::Destination(address));
                assert forall|j: int| k < j < earlier.len() implies !((
                #[trigger] earlier[j]) is Destination) by {
                    assert(earlier[j] == attributes[j]);
                }
                assert(names_destination(earlier, address));
            }
        }
    }
}

/// What a route leads through and to is what its attributes name last.
pub proof fn law_the_last_attribute_counts(
    attributes: Seq<RouteAttribute>,
    index: u32,
    address: RouteAddress,
)
    ensures
        routing::last_interface(attributes) == Some(index) <==> names_interface(attributes, index),
        routing::last_destination(attributes) == Some(address) <==> names_destination(
            attributes,
            address,
        ),
{
    lemma_interface(attributes, index);
    lemma_destination(attributes, address);
}

/// A route is the one to a subnet through an interface exactly if it names the address,
/// of the right family, and the interface, and has the prefix.
pub proof fn law_which_route_is_removed(
    route: RouteMessage,
    subnet: IpAddr,
    prefix: u8,
    index: u32,
)
    ensures
        routing::leads_to(route, subnet, prefix, index) <==> {
            &&& names_interface(route.attributes@, index)
            &&& match subnet {
                IpAddr::V4(a) => names_destination(route.attributes@, RouteAddress::Inet(a)),
                IpAddr::V6(a) => names_destination(route.attributes@, RouteAddress::Inet6(a)),
            }
            &&& route.destination_prefix_length == prefix
        },
{
    lemma_interface(route.attributes@, index);
    match subnet {
        IpAddr::V4(a) => lemma_destination(route.attributes@, RouteAddress::Inet(a)),
        IpAddr::V6(a) => lemma_destination(route.attributes@, RouteAddress::Inet6(a)),
    }
}

/// The netmask of no prefix is 0; each further bit of the prefix sets the next bit of
/// the mask; and a prefix of 32 bits or more has all of them set.
pub proof fn law_the_netmask_has_as_many_ones(prefix: u8)
    ensures
        tun::netmask(0) == 0,
        prefix < 32 ==> tun::netmask((prefix + 1) as u8) - tun::netmask(prefix) == power2::pow2(
            (31 - prefix) as nat,
        ),
        prefix >= 32 ==> tun::netmask(prefix) == 0xffff_ffff,
{
    power2::lemma2_to64();
    if prefix < 32 {
        power2::lemma_pow2_unfold((32 - prefix) as nat);
        if prefix == 31 {
            assert(power2::pow2(0) == 1);
        }
    }
}

/// The forwarder listens at the local address: behind it and a colon stands the port.
pub proof fn law_where_the_forwarder_listens(port: u16)
    ensures
        dns::listen_address(port).take(10) == seq!['1', '2', '7', '.', '0', '.', '0', '.', '1', ':'],
        text::number(dns::listen_address(port).skip(10), 0xffff) == Some(port as nat),
{
    reveal_strlit("127.0.0.1:");
    let digits = text::decimal(port as nat);
    assert("127.0.0.1:"@ =~= seq!['1', '2', '7', '.', '0', '.', '0', '.', '1', ':']);
    assert(dns::listen_address(port).skip(10) =~= digits);
    text::law_decimal_is_read_back(port as nat, 0xffff);
}

/// Each domain that is given is routed, in order, behind a tilde; without one, all are.
pub proof fn law_which_domains_are_routed(domains: Seq<String>)
    ensures
        domains.len() == 0 ==> dns::routed_domains(domains) == seq![seq!['~', '.']],
        domains.len() > 0 ==> {
            &&& dns::routed_domains(domains).len() == domains.len()
            &&& forall|i: int|
                0 <= i < domains.len() ==> dns::routed_domains(domains)[i] == seq!['~'] + (
                #[trigger] domains[i])@
        },
{
    reveal_strlit("~.");
    reveal_strlit("~");
    assert("~."@ =~= seq!['~', '.']);
    assert("~"@ =~= seq!['~']);
}

} // verus!
