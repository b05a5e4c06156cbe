//! What the command line asks for.

use std::path::PathBuf;
use vstd::prelude::*;
use vstd::string::*;

use crate::addr::IpAddr;
use crate::text;

verus! {

/// The port of an SSH server, where none is given.
pub const SSH_PORT: u16 = 22;

/// A path of the file system.
#[verifier::external_type_specification]
#[verifier::external_body]
pub struct ExPathBuf(std::path::PathBuf);

/// SSH tunnel proxy for routing traffic through a remote server
pub struct Cli {
    pub command: Command,
}

/// The two modes of the program.
pub enum Command {
    /// Run in host mode: create TUN interface and tunnel traffic through SSH
    Host(HostArgs),
    /// Run in remote mode: proxy connections (executed automatically via SSH)
    Remote,
}

/// The arguments of host mode.
pub struct HostArgs {
    /// Remote SSH destination (host or host:port)
    pub remote: String,
    /// Remote SSH user
    pub user: String,
    /// Subnets to route through the tunnel (e.g., 192.168.1.0/24)
    pub subnets: Vec<String>,
    /// IP address for the TUN interface (e.g., 10.0.0.1/24)
    pub tun_ip: String,
    /// Name for the TUN interface
    pub tun_name: String,
    /// Path to SSH private key
    pub identity: Option<PathBuf>,
    /// Path to the remote binary (default: ssh-proxy)
    pub remote_binary: String,
    /// DNS server to use for the tunnel
    pub dns: Option<IpAddr>,
    /// Domains to forward to that DNS server
    pub dns_domains: Vec<String>,
    /// Enable verbose logging
    pub verbose: bool,
}

/// Why an argument could not be understood.
#[derive(Debug, Clone, Copy, PartialEq, Eq, Structural)]
pub enum CliError {
    /// What follows the colon is no port.
    Port,
    /// There is not exactly one slash.
    CidrFormat,
    /// What precedes the slash is no address.
    CidrAddress,
    /// What follows the slash is no number of up to 8 bits.
    CidrPrefix,
    /// The prefix is longer than the address.
    PrefixTooLong { prefix: u8, max: u8 },
}

/// Where a text holds a character for the first time at or behind `from`, or the
/// length of the text if it does not.
pub open spec fn first_at(s: Seq<char>, c: char, from: int) -> int
    decreases s.len() - from,
{
    if from >= s.len() {
        s.len() as int
    } else if s[from] == c {
        from
    } else {
        first_at(s, c, from + 1)
    }
}

/// The host and port that a remote string stands for.
pub open spec fn remote_of(s: Seq<char>) -> Result<(Seq<char>, u16), CliError> {
    let i = first_at(s, ':', 0);
    if i == s.len() {
        Ok((s, SSH_PORT))
    } else {
        match text::number(s.skip(i + 1), 0xffff) {
            Some(port) => Ok((s.take(i), port as u16)),
            None => Err(CliError::Port),
        }
    }
}

/// The length of an address in bits.
pub open spec fn max_prefix(ip: IpAddr) -> u8 {
    match ip {
        IpAddr::V4(_) => 32,
        IpAddr::V6(_) => 128,
    }
}

/// The subnet that a CIDR string stands for.
pub open spec fn cidr_of(s: Seq<char>) -> Result<(IpAddr, u8), CliError> {
    let parts = text::split(s, '/');
    if parts.len() != 2 {
        Err(CliError::CidrFormat)
    } else {
        match (text::ip(parts[0]), text::number(parts[1], 0xff)) {
            (None, _) => Err(CliError::CidrAddress),
            (_, None) => Err(CliError::CidrPrefix),
            (Some(ip), Some(prefix)) => if prefix > max_prefix(ip) {
                Err(CliError::PrefixTooLong { prefix: prefix as u8, max: max_prefix(ip) })
            } else {
                Ok((ip, prefix as u8))
            },
        }
    }
}

/// Parse a remote string like "host" or "host:port"
pub fn parse_remote(remote: &str) -> (r: Result<(String, u16), CliError>)
    ensures
        match remote_of(remote@) {
            Ok((host, port)) => r matches Ok(found) && found.0@ == host && found.1 == port,
            Err(e) => r == Err::<(String, u16), CliError>(e),
        },
{
    let chars: Vec<char> = text::chars_of(remote);
    let n: usize = chars.len();
    let mut i: usize = 0;
    while i < n && chars[i] != ':'
        invariant
            n == chars@.len(),
            i <= n,
            first_at(chars@, ':', 0) == first_at(chars@, ':', i as int),
        decreases n - i,
    {
        i += 1;
    }
    if i == n {
        return Ok((remote.to_owned(), SSH_PORT));
    }
    let port_text: &[char] = vstd::slice::slice_subrange(chars.as_slice(), i + 1, n);
    assert(port_text@ =~= remote@.skip(i + 1));
    match text::read_number(port_text, 0xffff) {
        Some(port) => {
            let host: &str = remote.substring_char(0, i);
            assert(host@ =~= remote@.take(i as int));
            Ok((host.to_owned(), port as u16))
        },
        None => Err(CliError::Port),
    }
}

/// Parse a CIDR notation string like "192.168.1.0/24" or "fd00::/64"
pub fn parse_cidr(cidr: &str) -> (r: Result<(IpAddr, u8), CliError>)
    ensures
        r == cidr_of(cidr@),
{
    let chars: Vec<char> = text::chars_of(cidr);
    let parts: Vec<Vec<char>> = text::split_at(chars.as_slice(), '/');
    if parts.len() != 2 {
        return Err(CliError::CidrFormat);
    }
    let ip: IpAddr = match text::read_ip(parts[0].as_slice()) {
        Some(ip) => ip,
        None => return Err(CliError::CidrAddress),
    };
    let prefix: u8 = match text::read_number(parts[1].as_slice(), 0xff) {
        Some(prefix) => prefix as u8,
        None => return Err(CliError::CidrPrefix),
    };
    let max: u8 = match ip {
        IpAddr::V4(_) => 32,
        IpAddr::V6(_) => 128,
    };
    if prefix > max {
        Err(CliError::PrefixTooLong { prefix, max })
    } else {
        Ok((ip, prefix))
    }
}

/// The SSH user, where none is given: the current one, or root where that is
/// unknown.
pub fn default_user(current: Option<String>) -> (r: String)
    ensures
        match current {
            Some(name) => r == name,
            None => r@ == "root"@,
        },
{
    match current {
        Some(name) => name,
        None => "root".to_owned(),
    }
}

impl Cli {
    /// Whether the log shows debug messages.
    pub fn is_verbose(&self) -> (r: bool)
        ensures
            r == (match self.command {
                Command::Host(args) => args.verbose,
                Command::Remote => false,
            }),
    {
        match &self.command {
            Command::Host(args) => args.verbose,
            Command::Remote => false,
        }
    }
}

/// The prefix of a parsed subnet is no longer than its address.
pub proof fn law_prefix_fits_the_address(s: Seq<char>)
    ensures
        cidr_of(s) matches Ok((ip, prefix)) ==> prefix <= max_prefix(ip),
{
}

/// A host without a colon and a port, put together with a colon, are taken apart
/// again.
pub proof fn law_host_and_port_are_taken_apart(host: Seq<char>, port: u16)
    requires
        !host.contains(':'),
    ensures
        remote_of(host.push(':') + text::decimal(port as nat)) == Ok::<(Seq<char>, u16), CliError>(
            (host, port),
        ),
        remote_of(host) == Ok::<(Seq<char>, u16), CliError>((host, SSH_PORT)),
{
    let s = host.push(':') + text::decimal(port as nat);
    assert forall|i: int| 0 <= i < host.len() implies host[i] != ':' by {
        assert(host.contains(host[i]));
    }
    assert forall|i: int| 0 <= i < host.len() implies s[i] == host[i] by {}
    lemma_first_at(s, ':', 0, host.len() as int);
    lemma_first_at(host, ':', 0, host.len() as int);
    assert(s.take(host.len() as int) =~= host);
    assert(s.skip(host.len() as int + 1) =~= text::decimal(port as nat));
    text::law_decimal_is_read_back(port as nat, 0xffff);
}

pub(crate) proof fn lemma_first_at(s: Seq<char>, c: char, from: int, i: int)
    requires
        0 <= from <= i <= s.len(),
        forall|j: int| from <= j < i ==> s[j] != c,
        i < s.len() ==> s[i] == c,
    ensures
        first_at(s, c, from) == i,
    decreases i - from,
{
    if from < i {
        lemma_first_at(s, c, from + 1, i);
    }
}

} // verus!
