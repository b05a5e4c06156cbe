//! What host mode sets up before its main loop, and takes down after it.

use vstd::prelude::*;
use vstd::string::*;

use crate::addr::IpAddr;
use crate::cli;
use crate::cli::{parse_cidr, parse_remote, CliError, HostArgs};
use crate::host::ssh::SshConfig;

verus! {

/// What host mode is to do.
pub struct HostPlan {
    pub ssh: SshConfig,
    pub tun_name: String,
    pub tun_ip: (IpAddr, u8),
    pub subnets: Vec<(IpAddr, u8)>,
    pub dns: Option<IpAddr>,
    pub dns_domains: Vec<String>,
}

/// The subnets that these texts stand for; the first that stands for none decides.
pub open spec fn subnets_of(list: Seq<String>) -> Result<Seq<(IpAddr, u8)>, CliError>
    decreases list.len(),
{
    if list.len() == 0 {
        Ok(seq![])
    } else {
        match subnets_of(list.drop_last()) {
            Err(e) => Err(e),
            Ok(before) => match cli::cidr_of(list.last()@) {
                Err(e) => Err(e),
                Ok(last) => Ok(before.push(last)),
            },
        }
    }
}

/// Why the arguments make no plan, if they do not: the remote is looked at first,
/// then the address of the interface, then the subnets.
pub open spec fn fault_of(args: HostArgs) -> Option<CliError> {
    match (cli::remote_of(args.remote@), cli::cidr_of(args.tun_ip@), subnets_of(args.subnets@)) {
        (Err(e), _, _) => Some(e),
        (_, Err(e), _) => Some(e),
        (_, _, Err(e)) => Some(e),
        _ => None,
    }
}

/// Whether a plan is what the arguments ask for.
pub open spec fn planned(args: HostArgs, plan: HostPlan) -> bool {
    &&& cli::remote_of(args.remote@) == Ok::<(Seq<char>, u16), CliError>(
        (plan.ssh.host@, plan.ssh.port),
    )
    &&& plan.ssh.user == args.user
    &&& plan.ssh.identity == args.identity
    &&& plan.ssh.remote_binary == args.remote_binary
    &&& plan.tun_name == args.tun_name
    &&& cli::cidr_of(args.tun_ip@) == Ok::<(IpAddr, u8), CliError>(plan.tun_ip)
    &&& subnets_of(args.subnets@) == Ok::<Seq<(IpAddr, u8)>, CliError>(plan.subnets@)
    &&& plan.dns == args.dns
    &&& plan.dns_domains == args.dns_domains
}

/// Parse subnets to route
fn parse_subnets(list: &Vec<String>) -> (r: Result<Vec<(IpAddr, u8)>, CliError>)
    ensures
        match subnets_of(list@) {
            Ok(subnets) => r matches Ok(found) && found@ == subnets,
            Err(e) => r == Err::<Vec<(IpAddr, u8)>, CliError>(e),
        },
{
    let mut subnets: Vec<(IpAddr, u8)> = Vec::new();
    let mut i: usize = 0;
    assert(list@.take(0) =~= Seq::<String>::empty());
    while i < list.len()
        invariant
            i <= list@.len(),
            subnets_of(list@.take(i as int)) == Ok::<Seq<(IpAddr, u8)>, CliError>(subnets@),
        decreases list@.len() - i,
    {
        assert(list@.take(i + 1).drop_last() =~= list@.take(i as int));
        match parse_cidr(list[i].as_str()) {
            Ok(subnet) => {
                subnets.push(subnet);
            },
            Err(e) => {
                proof {
                    lemma_first_fault(list@, i + 1, e);
                }
                return Err(e);
            },
        }
        i += 1;
    }
    assert(list@.take(list@.len() as int) =~= list@);
    Ok(subnets)
}

/// What follows the first fault does not matter.
pub(crate) proof fn lemma_first_fault(list: Seq<String>, i: int, e: CliError)
    requires
        0 <= i <= list.len(),
        subnets_of(list.take(i)) == Err::<Seq<(IpAddr, u8)>, CliError>(e),
    ensures
        subnets_of(list) == Err::<Seq<(IpAddr, u8)>, CliError>(e),
    decreases list.len() - i,
{
    if i < list.len() {
        assert(list.take(i + 1).drop_last() =~= list.take(i));
        lemma_first_fault(list, i + 1, e);
    } else {
        assert(list.take(i) =~= list);
    }
}

/// What the arguments ask for.
pub fn plan(args: HostArgs) -> (r: Result<HostPlan, CliError>)
    ensures
        match fault_of(args) {
            Some(e) => r == Err::<HostPlan, CliError>(e),
            None => r matches Ok(plan) && planned(args, plan),
        },
{
    // Parse remote connection info
    let (host, port) = match parse_remote(args.remote.as_str()) {
        Ok(found) => found,
        Err(e) => return Err(e),
    };
    let tun_ip: (IpAddr, u8) = match parse_cidr(args.tun_ip.as_str()) {
        Ok(found) => found,
        Err(e) => return Err(e),
    };
    let subnets: Vec<(IpAddr, u8)> = match parse_subnets(&args.subnets) {
        Ok(found) => found,
        Err(e) => return Err(e),
    };
    let ssh = SshConfig {
        user: args.user,
        host,
        port,
        identity: args.identity,
        remote_binary: args.remote_binary,
    };
    Ok(
        HostPlan {
            ssh,
            tun_name: args.tun_name,
            tun_ip,
            subnets,
            dns: args.dns,
            dns_domains: args.dns_domains,
        },
    )
}

/// A step of host mode.
#[derive(Debug, Clone, Copy, PartialEq, Eq, Structural)]
pub enum SetupStep {
    /// Connect via SSH and start the remote proxy.
    Connect,
    /// Create the TUN interface.
    CreateTun,
    /// Route a subnet through the tunnel.
    AddRoute { subnet: IpAddr, prefix: u8 },
    /// Make the local DNS forwarder known.
    RegisterDns,
    /// Run the main loop.
    Loop,
    /// Take the DNS settings back.
    UnregisterDns,
    /// Take the route to a subnet back.
    RemoveRoute { subnet: IpAddr, prefix: u8 },
}

/// The step if it is wanted.
pub open spec fn only_if(wanted: bool, step: SetupStep) -> Seq<SetupStep> {
    if wanted {
        seq![step]
    } else {
        seq![]
    }
}

/// The steps that route subnets.
pub open spec fn added(subnets: Seq<(IpAddr, u8)>) -> Seq<SetupStep> {
    subnets.map_values(|s: (IpAddr, u8)| SetupStep::AddRoute { subnet: s.0, prefix: s.1 })
}

/// The steps that take the routes to subnets back.
pub open spec fn removed(subnets: Seq<(IpAddr, u8)>) -> Seq<SetupStep> {
    subnets.map_values(|s: (IpAddr, u8)| SetupStep::RemoveRoute { subnet: s.0, prefix: s.1 })
}

/// The steps of host mode, in order: what is set up before the main loop is taken
/// down after it.
pub open spec fn script(subnets: Seq<(IpAddr, u8)>, with_dns: bool) -> Seq<SetupStep> {
    seq![SetupStep::Connect, SetupStep::CreateTun] + added(subnets) + only_if(
        with_dns,
        SetupStep::RegisterDns,
    ) + seq![SetupStep::Loop] + only_if(with_dns, SetupStep::UnregisterDns) + removed(subnets)
}

impl HostPlan {
    /// The steps of host mode, in order.
    pub fn steps(&self) -> (r: Vec<SetupStep>)
        ensures
            r@ == script(self.subnets@, self.dns is Some),
    {
        let subnets: &Vec<(IpAddr, u8)> = &self.subnets;
        let mut r: Vec<SetupStep> = Vec::new();
        r.push(SetupStep::Connect);
        r.push(SetupStep::CreateTun);
        // Add routes for subnets
        let ghost start = r@;
        let mut i: usize = 0;
        while i < subnets.len()
            invariant
                i <= subnets@.len(),
                r@ =~= start + added(subnets@).take(i as int),
            decreases subnets@.len() - i,
        {
            let (subnet, prefix) = subnets[i];
            r.push(SetupStep::AddRoute { subnet, prefix });
            i += 1;
        }
        assert(r@ =~= seq![SetupStep::Connect, SetupStep::CreateTun] + added(subnets@));
        if self.dns.is_some() {
            r.push(SetupStep::RegisterDns);
        }
        // Run the main proxy loop
        r.push(SetupStep::Loop);
        if self.dns.is_some() {
            r.push(SetupStep::UnregisterDns);
        }
        assert(r@ =~= seq![SetupStep::Connect, SetupStep::CreateTun] + added(subnets@) + only_if(
            self.dns is Some,
            SetupStep::RegisterDns,
        ) + seq![SetupStep::Loop] + only_if(self.dns is Some, SetupStep::UnregisterDns));
        // Cleanup routes
        let ghost middle = r@;
        let mut k: usize = 0;
        while k < subnets.len()
            invariant
                k <= subnets@.len(),
                r@ =~= middle + removed(subnets@).take(k as int),
            decreases subnets@.len() - k,
        {
            let (subnet, prefix) = subnets[k];
            r.push(SetupStep::RemoveRoute { subnet, prefix });
            k += 1;
        }
        assert(removed(subnets@).take(k as int) =~= removed(subnets@));
        r
    }
}

/// What the failure of a step means.
#[derive(Debug, Clone, Copy, PartialEq, Eq, Structural)]
pub enum OnFailure {
    /// The program ends with the error at once.
    Stop,
    /// The later steps are still taken; then the program ends with the error.
    StopAfterCleanup,
    /// The error is logged.
    Warn,
}

/// What the failure of a step means.
pub open spec fn failure_means(step: SetupStep) -> OnFailure {
    match step {
        SetupStep::Connect
        | SetupStep::CreateTun
        | SetupStep::AddRoute { .. }
        | SetupStep::RegisterDns => OnFailure::Stop,
        SetupStep::Loop => OnFailure::StopAfterCleanup,
        SetupStep::UnregisterDns | SetupStep::RemoveRoute { .. } => OnFailure::Warn,
    }
}

/// What the failure of a step means.
pub fn on_failure(step: SetupStep) -> (r: OnFailure)
    ensures
        r == failure_means(step),
{
    match step {
        SetupStep::Connect
        | SetupStep::CreateTun
        | SetupStep::AddRoute { .. }
        | SetupStep::RegisterDns => OnFailure::Stop,
        SetupStep::Loop => OnFailure::StopAfterCleanup,
        SetupStep::UnregisterDns | SetupStep::RemoveRoute { .. } => OnFailure::Warn,
    }
}

/// How host mode stands between two steps.
#[derive(Debug)]
pub enum Course<E> {
    /// The next step is taken; at the end of the steps, this is the result.
    GoOn(Result<(), E>),
    /// No further step is taken; this is the result.
    End(Result<(), E>),
}

/// How host mode stands after a step with this outcome, where this was the result up
/// to then.
pub open spec fn course_after<E>(
    step: SetupStep,
    outcome: Result<(), E>,
    so_far: Result<(), E>,
) -> Course<E> {
    match outcome {
        Ok(_) => Course::GoOn(so_far),
        Err(e) => match failure_means(step) {
            OnFailure::Stop => Course::End(Err(e)),
            OnFailure::StopAfterCleanup => Course::GoOn(Err(e)),
            OnFailure::Warn => Course::GoOn(so_far),
        },
    }
}

/// How host mode stands after a step with this outcome, where this was the result up
/// to then.
pub fn after_step<E>(
    step: SetupStep,
    outcome: Result<(), E>,
    so_far: Result<(), E>,
) -> (r: Course<E>)
    ensures
        r == course_after(step, outcome, so_far),
{
    match outcome {
        Ok(()) => Course::GoOn(so_far),
        Err(e) => match on_failure(step) {
            OnFailure::Stop => Course::End(Err(e)),
            OnFailure::StopAfterCleanup => Course::GoOn(Err(e)),
            OnFailure::Warn => Course::GoOn(so_far),
        },
    }
}

/// How host mode stands before step `n`, where each step that is taken has the
/// outcome given for it: the step is taken if and only if the course is to go on.
pub open spec fn course<E>(steps: Seq<SetupStep>, outcomes: Seq<Result<(), E>>, n: nat) -> Course<E>
    decreases n,
{
    if n == 0 {
        Course::GoOn(Ok(()))
    } else {
        match course(steps, outcomes, (n - 1) as nat) {
            Course::GoOn(so_far) => course_after(steps[n - 1], outcomes[n - 1], so_far),
            Course::End(result) => Course::End(result),
        }
    }
}

/// Where the main loop stands among the steps.
pub open spec fn loop_index(subnets: Seq<(IpAddr, u8)>, with_dns: bool) -> nat {
    2 + subnets.len() + (if with_dns {
        1nat
    } else {
        0
    })
}

/// Up to the main loop every failure ends the program, behind it none does.
proof fn lemma_failures_around_the_loop(subnets: Seq<(IpAddr, u8)>, with_dns: bool, k: int)
    requires
        0 <= k < script(subnets, with_dns).len(),
    ensures
        ({
            let step = script(subnets, with_dns)[k];
            let main_loop = loop_index(subnets, with_dns);
            &&& k < main_loop <==> failure_means(step) == OnFailure::Stop
            &&& k == main_loop <==> failure_means(step) == OnFailure::StopAfterCleanup
            &&& k > main_loop <==> failure_means(step) == OnFailure::Warn
        }),
{
}

proof fn lemma_no_failure_so_far<E>(
    subnets: Seq<(IpAddr, u8)>,
    with_dns: bool,
    outcomes: Seq<Result<(), E>>,
    n: nat,
)
    requires
        n <= loop_index(subnets, with_dns),
    ensures
        course(script(subnets, with_dns), outcomes, n) matches Course::GoOn(so_far)
            ==> so_far == Ok::<(), E>(()),
    decreases n,
{
    if n > 0 {
        lemma_no_failure_so_far(subnets, with_dns, outcomes, (n - 1) as nat);
        lemma_failures_around_the_loop(subnets, with_dns, n - 1);
    }
}

/// Once the main loop is reached, every later step is taken, so every route is tried
/// to be removed, whatever fails; and the result is the one of the loop.
pub proof fn law_cleanup_follows_the_loop<E>(
    subnets: Seq<(IpAddr, u8)>,
    with_dns: bool,
    outcomes: Seq<Result<(), E>>,
    n: nat,
)
    requires
        course(script(subnets, with_dns), outcomes, loop_index(subnets, with_dns)) is GoOn,
        loop_index(subnets, with_dns) < n <= script(subnets, with_dns).len(),
    ensures
        course(script(subnets, with_dns), outcomes, n) == Course::GoOn(
            outcomes[loop_index(subnets, with_dns) as int],
        ),
    decreases n,
{
    let main_loop = loop_index(subnets, with_dns);
    lemma_no_failure_so_far(subnets, with_dns, outcomes, main_loop);
    lemma_failures_around_the_loop(subnets, with_dns, n - 1);
    if n - 1 > main_loop {
        law_cleanup_follows_the_loop(subnets, with_dns, outcomes, (n - 1) as nat);
    } else {
        assert((n - 1) as nat == main_loop);
        if let Ok(nothing) = outcomes[main_loop as int] {
            assert(nothing == ());
        }
    }
}

/// A step before the main loop that fails, where none failed before it, ends the
/// program with its error, and no later step is taken.
pub proof fn law_failed_setup_ends_at_once<E>(
    subnets: Seq<(IpAddr, u8)>,
    with_dns: bool,
    outcomes: Seq<Result<(), E>>,
    i: nat,
    n: nat,
)
    requires
        i < loop_index(subnets, with_dns),
        forall|k: int| 0 <= k < i ==> (#[trigger] outcomes[k]) is Ok,
        outcomes[i as int] is Err,
        n <= script(subnets, with_dns).len(),
    ensures
        n <= i ==> course(script(subnets, with_dns), outcomes, n) == Course::GoOn(
            Ok::<(), E>(()),
        ),
        n > i ==> course(script(subnets, with_dns), outcomes, n) == Course::End(
            outcomes[i as int],
        ),
    decreases n,
{
    if n > 0 {
        law_failed_setup_ends_at_once(subnets, with_dns, outcomes, i, (n - 1) as nat);
        lemma_failures_around_the_loop(subnets, with_dns, n - 1);
        if n - 1 < i {
            assert(outcomes[n - 1] is Ok);
        }
    }
}

/// Where no step before the main loop fails, the loop is reached.
pub proof fn law_loop_is_reached<E>(
    subnets: Seq<(IpAddr, u8)>,
    with_dns: bool,
    outcomes: Seq<Result<(), E>>,
    n: nat,
)
    requires
        n <= loop_index(subnets, with_dns),
        forall|k: int| 0 <= k < n ==> (#[trigger] outcomes[k]) is Ok,
    ensures
        course(script(subnets, with_dns), outcomes, n) == Course::GoOn(Ok::<(), E>(())),
    decreases n,
{
    if n > 0 {
        law_loop_is_reached(subnets, with_dns, outcomes, (n - 1) as nat);
        assert(outcomes[n - 1] is Ok);
    }
}

/// Every route that is added before the main loop is removed after it.
pub proof fn law_routes_are_taken_back(subnets: Seq<(IpAddr, u8)>, with_dns: bool, i: int)
    requires
        0 <= i < subnets.len(),
    ensures
        ({
            let steps = script(subnets, with_dns);
            let (subnet, prefix) = subnets[i];
            let extra: int = if with_dns {
                1
            } else {
                0
            };
            let main_loop = loop_index(subnets, with_dns) as int;
            &&& steps.len() == main_loop + 1 + extra + subnets.len()
            &&& steps[2 + i] == SetupStep::AddRoute { subnet, prefix }
            &&& steps[main_loop] == SetupStep::Loop
            &&& steps[main_loop + 1 + extra + i] == SetupStep::RemoveRoute { subnet, prefix }
        }),
{
}

} // verus!
