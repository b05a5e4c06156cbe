//! The SSH session: how the host logs in, and whom it takes for the server.

use std::path::PathBuf;
use vstd::prelude::*;
use vstd::string::*;

use crate::text;

verus! {

/// Where to connect to, and as whom.
pub struct SshConfig {
    pub user: String,
    pub host: String,
    pub port: u16,
    pub identity: Option<PathBuf>,
    pub remote_binary: String,
}

/// A host and a port with a colon in between.
pub open spec fn host_and_port(host: Seq<char>, port: u16) -> Seq<char> {
    host.push(':') + text::decimal(port as nat)
}

impl SshConfig {
    /// The address of the server: host and port.
    pub fn address(&self) -> (r: String)
        ensures
            r@ == host_and_port(self.host@, self.port),
    {
        proof {
            reveal_strlit(":");
        }
        let mut r: String = self.host.clone();
        r.append(":");
        assert(r@ =~= self.host@.push(':'));
        text::push_decimal(&mut r, self.port as u64);
        r
    }

    /// The command that starts the remote proxy.
    pub fn command(&self) -> (r: String)
        ensures
            r@ == self.remote_binary@ + " remote"@,
    {
        let mut r: String = self.remote_binary.clone();
        r.append(" remote");
        r
    }

    /// What the user is asked when the server wants a password.
    pub fn password_prompt(&self) -> (r: String)
        ensures
            r@ == "Password for "@ + self.user@ + "@"@ + self.host@ + ": "@,
    {
        let mut r: String = "Password for ".to_owned();
        r.append(self.user.as_str());
        r.append("@");
        r.append(self.host.as_str());
        r.append(": ");
        r
    }

    /// What the user is asked when the key of the server is unknown.
    pub fn host_key_prompt(&self, fingerprint: &str) -> (r: String)
        ensures
            r@ == host_and_port(self.host@, self.port) + " add key "@ + fingerprint@,
    {
        let mut r: String = self.address();
        r.append(" add key ");
        r.append(fingerprint);
        r
    }
}

/// What to do about the key that a server shows.
#[derive(Debug, Clone, Copy, PartialEq, Eq, Structural)]
pub enum HostKeyStep {
    /// Look the key up among the known ones.
    LookUp,
    /// Ask the user whether to add the key.
    Ask,
    /// Add the key to the known ones.
    Learn,
    /// Go on with the session.
    Accept,
    /// Break the session off.
    Refuse,
    /// The list of known keys could not be read, or disagrees with the key.
    KnownHostsFailed,
    /// The key could not be added.
    LearnFailed,
}

/// What came of a step about the key of a server.
#[derive(Debug, Clone, Copy, PartialEq, Eq, Structural)]
pub enum HostKeyEvent {
    /// The key is known, or is not.
    LookedUp { known: bool },
    /// The look-up failed.
    LookUpFailed,
    /// The user agreed, or did not.
    Answered { yes: bool },
    /// The user could not be asked.
    NotAnswered,
    /// The key was added.
    Learned,
    /// The key was not added.
    NotLearned,
}

/// What follows on a step about the key of a server. What does not belong to the
/// step changes nothing.
pub open spec fn host_key_after(step: HostKeyStep, event: HostKeyEvent) -> HostKeyStep {
    match (step, event) {
        (HostKeyStep::LookUp, HostKeyEvent::LookedUp { known }) => if known {
            HostKeyStep::Accept
        } else {
            HostKeyStep::Ask
        },
        (HostKeyStep::LookUp, HostKeyEvent::LookUpFailed) => HostKeyStep::KnownHostsFailed,
        (HostKeyStep::Ask, HostKeyEvent::Answered { yes }) => if yes {
            HostKeyStep::Learn
        } else {
            HostKeyStep::Refuse
        },
        (HostKeyStep::Ask, HostKeyEvent::NotAnswered) => HostKeyStep::Refuse,
        (HostKeyStep::Learn, HostKeyEvent::Learned) => HostKeyStep::Accept,
        (HostKeyStep::Learn, HostKeyEvent::NotLearned) => HostKeyStep::LearnFailed,
        _ => step,
    }
}

/// What follows on a step about the key of a server.
pub fn check_server_key(step: HostKeyStep, event: HostKeyEvent) -> (r: HostKeyStep)
    ensures
        r == host_key_after(step, event),
{
    match (step, event) {
        (HostKeyStep::LookUp, HostKeyEvent::LookedUp { known }) => if known {
            HostKeyStep::Accept
        } else {
            HostKeyStep::Ask
        },
        (HostKeyStep::LookUp, HostKeyEvent::LookUpFailed) => HostKeyStep::KnownHostsFailed,
        (HostKeyStep::Ask, HostKeyEvent::Answered { yes }) => if yes {
            HostKeyStep::Learn
        } else {
            HostKeyStep::Refuse
        },
        (HostKeyStep::Ask, HostKeyEvent::NotAnswered) => HostKeyStep::Refuse,
        (HostKeyStep::Learn, HostKeyEvent::Learned) => HostKeyStep::Accept,
        (HostKeyStep::Learn, HostKeyEvent::NotLearned) => HostKeyStep::LearnFailed,
        _ => step,
    }
}

/// What stands at the end of these events about the key of a server.
pub open spec fn host_key_run(events: Seq<HostKeyEvent>) -> HostKeyStep
    decreases events.len(),
{
    if events.len() == 0 {
        HostKeyStep::LookUp
    } else {
        host_key_after(host_key_run(events.drop_last()), events.last())
    }
}

/// The key of a server is accepted only if it is known, or if the user agreed and it
/// was added to the known ones.
pub proof fn law_host_key_is_known_or_learned(events: Seq<HostKeyEvent>)
    ensures
        host_key_run(events) == HostKeyStep::Accept ==> {
            ||| events.contains(HostKeyEvent::LookedUp { known: true })
            ||| events.contains(HostKeyEvent::Answered { yes: true }) && events.contains(
                HostKeyEvent::Learned,
            )
        },
        host_key_run(events) == HostKeyStep::Learn ==> events.contains(
            HostKeyEvent::Answered { yes: true },
        ),
    decreases events.len(),
{
    if events.len() > 0 {
        let before = events.drop_last();
        law_host_key_is_known_or_learned(before);
        assert forall|e: HostKeyEvent| before.contains(e) implies events.contains(e) by {
            let i = choose|i: int| 0 <= i < before.len() && before[i] == e;
            assert(events[i] == e);
        }
        assert(events.contains(events.last()));
    }
}

/// A way to log in that a server offers.
#[derive(Debug, Clone, Copy, PartialEq, Eq, Structural)]
pub enum AuthMethod {
    NoMethod,
    Password,
    PublicKey,
    HostBased,
    KeyboardInteractive,
    GssapiWithMic,
}

/// What the server said to an identity of the agent.
#[derive(Debug)]
pub enum IdentityOutcome {
    /// The user is logged in.
    Accepted,
    /// The user is not logged in. On partial success a further method is needed.
    Rejected { partial_success: bool, remaining_methods: Vec<AuthMethod> },
    /// The attempt failed.
    Error,
}

/// What the server said to an answer that was typed in.
#[derive(Debug, Clone, Copy, PartialEq, Eq, Structural)]
pub enum KeyboardReply {
    /// The user is logged in.
    Accepted,
    /// The server has questions, possibly none.
    Asks,
    /// The user is not logged in.
    Refused,
    /// The dialogue broke down.
    Error,
}

/// Why the user is not logged in.
#[derive(Debug, Clone, Copy, PartialEq, Eq, Structural)]
pub enum LoginError {
    /// The private key could not be loaded.
    KeyNotLoaded,
    /// The attempt with the private key failed.
    KeyFailed,
    /// The password could not be read.
    PasswordNotRead,
    /// The attempt with the password failed.
    PasswordFailed,
    /// The server said no.
    Rejected,
}

/// How far the login is: what is tried now, or how it ended.
#[derive(Debug, Clone, Copy, PartialEq, Eq, Structural)]
pub enum LoginStep {
    /// Load the private key and try it.
    Key,
    /// List the identities of the agent.
    Agent,
    /// Try an identity of the agent.
    Identity { index: usize, count: usize },
    /// Answer the questions of the server, behind an identity of the agent.
    Keyboard { index: usize, count: usize },
    /// Ask the user for the password and try it.
    Password,
    /// The user is logged in.
    LoggedIn,
    /// The user is not logged in.
    Failed(LoginError),
}

/// What came of a step of the login.
#[derive(Debug)]
pub enum LoginEvent {
    KeyNotLoaded,
    /// The server accepted the key or not; or the attempt failed.
    KeyTried(Option<bool>),
    /// The number of identities of the agent; or there is no agent to ask.
    AgentListed(Option<usize>),
    IdentityTried(IdentityOutcome),
    KeyboardReplied(KeyboardReply),
    PasswordNotRead,
    /// The server accepted the password or not; or the attempt failed.
    PasswordTried(Option<bool>),
}

/// What an attempt with a key or a password leads to.
pub open spec fn attempt(outcome: Option<bool>, error: LoginError) -> LoginStep {
    match outcome {
        Some(true) => LoginStep::LoggedIn,
        Some(false) => LoginStep::Failed(LoginError::Rejected),
        None => LoginStep::Failed(error),
    }
}

/// The identity to try from `index` on, or the password where none is left.
pub open spec fn identity_from(index: int, count: usize) -> LoginStep {
    if index < count {
        LoginStep::Identity { index: index as usize, count }
    } else {
        LoginStep::Password
    }
}

/// The first step of the login: a private key is tried alone, without one the agent
/// is asked.
pub open spec fn login_start(with_key: bool) -> LoginStep {
    if with_key {
        LoginStep::Key
    } else {
        LoginStep::Agent
    }
}

/// What follows on a step of the login. What does not belong to the step changes
/// nothing.
pub open spec fn login_after(step: LoginStep, event: LoginEvent) -> LoginStep {
    match (step, event) {
        (LoginStep::Key, LoginEvent::KeyNotLoaded) => LoginStep::Failed(LoginError::KeyNotLoaded),
        (LoginStep::Key, LoginEvent::KeyTried(outcome)) => attempt(outcome, LoginError::KeyFailed),
        (LoginStep::Agent, LoginEvent::AgentListed(Some(count))) => identity_from(0, count),
        (LoginStep::Agent, LoginEvent::AgentListed(None)) => LoginStep::Password,
        (LoginStep::Identity { index, count }, LoginEvent::IdentityTried(outcome)) => {
            match outcome {
                IdentityOutcome::Accepted => LoginStep::LoggedIn,
                IdentityOutcome::Rejected { partial_success, remaining_methods } => {
                    if partial_success && remaining_methods@.contains(
                        AuthMethod::KeyboardInteractive,
                    ) {
                        LoginStep::Keyboard { index, count }
                    } else {
                        identity_from(index + 1, count)
                    }
                },
                IdentityOutcome::Error => identity_from(index + 1, count),
            }
        },
        (LoginStep::Keyboard { index, count }, LoginEvent::KeyboardReplied(reply)) => {
            match reply {
                KeyboardReply::Accepted => LoginStep::LoggedIn,
                KeyboardReply::Asks => step,
                KeyboardReply::Refused => identity_from(index + 1, count),
                KeyboardReply::Error => LoginStep::Password,
            }
        },
        (LoginStep::Password, LoginEvent::PasswordNotRead) => LoginStep::Failed(
            LoginError::PasswordNotRead,
        ),
        (LoginStep::Password, LoginEvent::PasswordTried(outcome)) => attempt(
            outcome,
            LoginError::PasswordFailed,
        ),
        _ => step,
    }
}

/// The first step of the login.
pub fn start_login(config: &SshConfig) -> (r: LoginStep)
    ensures
        r == login_start(config.identity is Some),
{
    if config.identity.is_some() {
        LoginStep::Key
    } else {
        LoginStep::Agent
    }
}

fn attempted(outcome: Option<bool>, error: LoginError) -> (r: LoginStep)
    ensures
        r == attempt(outcome, error),
{
    match outcome {
        Some(true) => LoginStep::LoggedIn,
        Some(false) => LoginStep::Failed(LoginError::Rejected),
        None => LoginStep::Failed(error),
    }
}

/// The identity behind `index`, or the password where none is left.
fn next_identity(index: usize, count: usize) -> (r: LoginStep)
    ensures
        r == identity_from(index + 1, count),
{
    if count > 0 && index < count - 1 {
        LoginStep::Identity { index: index + 1, count }
    } else {
        LoginStep::Password
    }
}

/// Whether the server offers to ask questions.
fn offers_keyboard(methods: &Vec<AuthMethod>) -> (r: bool)
    ensures
        r == methods@.contains(AuthMethod::KeyboardInteractive),
{
    let mut i: usize = 0;
    while i < methods.len()
        invariant
            i <= methods@.len(),
            forall|j: int| 0 <= j < i ==> methods@[j] != AuthMethod::KeyboardInteractive,
        decreases methods@.len() - i,
    {
        if methods[i] == AuthMethod::KeyboardInteractive {
            return true;
        }
        i += 1;
    }
    false
}

/// What follows on a step of the login.
pub fn continue_login(step: LoginStep, event: LoginEvent) -> (r: LoginStep)
    ensures
        r == login_after(step, event),
{
    match (step, event) {
        (LoginStep::Key, LoginEvent::KeyNotLoaded) => LoginStep::Failed(LoginError::KeyNotLoaded),
        (LoginStep::Key, LoginEvent::KeyTried(outcome)) => attempted(
            outcome,
            LoginError::KeyFailed,
        ),
        (LoginStep::Agent, LoginEvent::AgentListed(Some(count))) => {
            if count > 0 {
                LoginStep::Identity { index: 0, count }
            } else {
                LoginStep::Password
            }
        },
        // Fall back to password
        (LoginStep::Agent, LoginEvent::AgentListed(None)) => LoginStep::Password,
        (LoginStep::Identity { index, count }, LoginEvent::IdentityTried(outcome)) => {
            match outcome {
                IdentityOutcome::Accepted => LoginStep::LoggedIn,
                IdentityOutcome::Rejected { partial_success, remaining_methods } => {
                    if partial_success && offers_keyboard(&remaining_methods) {
                        LoginStep::Keyboard { index, count }
                    } else {
                        next_identity(index, count)
                    }
                },
                IdentityOutcome::Error => next_identity(index, count),
            }
        },
        (LoginStep::Keyboard { index, count }, LoginEvent::KeyboardReplied(reply)) => {
            match reply {
                KeyboardReply::Accepted => LoginStep::LoggedIn,
                KeyboardReply::Asks => step,
                KeyboardReply::Refused => next_identity(index, count),
                KeyboardReply::Error => LoginStep::Password,
            }
        },
        (LoginStep::Password, LoginEvent::PasswordNotRead) => LoginStep::Failed(
            LoginError::PasswordNotRead,
        ),
        (LoginStep::Password, LoginEvent::PasswordTried(outcome)) => attempted(
            outcome,
            LoginError::PasswordFailed,
        ),
        _ => step,
    }
}

/// A question of the server.
#[derive(Debug)]
pub struct Prompt {
    pub prompt: String,
    /// Whether the answer may be seen while it is typed.
    pub echo: bool,
}

/// How a question of the server is answered.
#[derive(Debug, Clone, Copy, PartialEq, Eq, Structural)]
pub enum PromptKind {
    /// By an empty text, without asking.
    Empty,
    /// By a text that can be seen.
    Text,
    /// By a text that cannot be seen.
    Password,
}

/// How a question is answered.
pub open spec fn prompt_kind(prompt: Prompt) -> PromptKind {
    if prompt.prompt@.len() == 0 {
        PromptKind::Empty
    } else if prompt.echo {
        PromptKind::Text
    } else {
        PromptKind::Password
    }
}

/// How the questions of the server are answered, one by one.
pub fn keyboard_interactive_info_request(prompts: &Vec<Prompt>) -> (r: Vec<PromptKind>)
    ensures
        r@ == prompts@.map_values(|prompt: Prompt| prompt_kind(prompt)),
{
    let mut r: Vec<PromptKind> = Vec::new();
    let mut i: usize = 0;
    while i < prompts.len()
        invariant
            i <= prompts@.len(),
            r@.len() == i,
            forall|j: int| 0 <= j < i ==> #[trigger] r@[j] == prompt_kind(prompts@[j]),
        decreases prompts@.len() - i,
    {
        let prompt: &Prompt = &prompts[i];
        let kind: PromptKind = if prompt.prompt.as_str().is_empty() {
            PromptKind::Empty
        } else if prompt.echo {
            PromptKind::Text
        } else {
            PromptKind::Password
        };
        r.push(kind);
        i += 1;
    }
    r
}

/// Whether the server let the user in.
pub open spec fn lets_in(event: LoginEvent) -> bool {
    match event {
        LoginEvent::KeyTried(outcome) => outcome == Some(true),
        LoginEvent::IdentityTried(outcome) => outcome is Accepted,
        LoginEvent::KeyboardReplied(reply) => reply == KeyboardReply::Accepted,
        LoginEvent::PasswordTried(outcome) => outcome == Some(true),
        _ => false,
    }
}

/// What stands at the end of these events of the login.
pub open spec fn login_run(with_key: bool, events: Seq<LoginEvent>) -> LoginStep
    decreases events.len(),
{
    if events.len() == 0 {
        login_start(with_key)
    } else {
        login_after(login_run(with_key, events.drop_last()), events.last())
    }
}

/// The user is logged in only if the server let them in.
pub proof fn law_login_needs_the_server(with_key: bool, events: Seq<LoginEvent>)
    requires
        login_run(with_key, events) == LoginStep::LoggedIn,
    ensures
        exists|i: int| 0 <= i < events.len() && lets_in(#[trigger] events[i]),
    decreases events.len(),
{
    if events.len() > 0 {
        let before = events.drop_last();
        if login_run(with_key, before) == LoginStep::LoggedIn {
            law_login_needs_the_server(with_key, before);
            let i = choose|i: int| 0 <= i < before.len() && lets_in(#[trigger] before[i]);
            assert(lets_in(events[i]));
        } else {
            assert(lets_in(events[events.len() - 1]));
        }
    }
}

/// With a private key neither the agent nor a password is tried.
pub proof fn law_key_is_tried_alone(events: Seq<LoginEvent>)
    ensures
        match login_run(true, events) {
            LoginStep::Key | LoginStep::LoggedIn | LoginStep::Failed(_) => true,
            _ => false,
        },
    decreases events.len(),
{
    if events.len() > 0 {
        law_key_is_tried_alone(events.drop_last());
    }
}

/// How far the login is, as a number: what comes later has a larger one.
pub open spec fn progress(step: LoginStep) -> (int, int) {
    match step {
        LoginStep::Key => (0, 0),
        LoginStep::Agent => (0, 0),
        LoginStep::Identity { index, .. } => (1, 2 * index as int),
        LoginStep::Keyboard { index, .. } => (1, 2 * index as int + 1),
        LoginStep::Password => (2, 0),
        LoginStep::LoggedIn => (3, 0),
        LoginStep::Failed(_) => (3, 0),
    }
}

/// Each step of the login is left for a later one or stays: the identities of the
/// agent are tried in order, each once, then the password; and the end is the end.
pub proof fn law_login_goes_forward(step: LoginStep, event: LoginEvent)
    ensures
        ({
            let next = login_after(step, event);
            let (a, b) = progress(step);
            let (c, d) = progress(next);
            &&& next == step || a < c || (a == c && b < d)
            &&& step is Identity && next is Identity && next != step ==> next->Identity_index
                == step->Identity_index + 1
            &&& step is Keyboard && next is Identity ==> next->Identity_index
                == step->Keyboard_index + 1
        }),
{
}

/// The identity that is tried is one of those that the agent has.
pub proof fn law_identity_exists(with_key: bool, events: Seq<LoginEvent>)
    ensures
        match login_run(with_key, events) {
            LoginStep::Identity { index, count } => index < count,
            LoginStep::Keyboard { index, count } => index < count,
            _ => true,
        },
    decreases events.len(),
{
    if events.len() > 0 {
        law_identity_exists(with_key, events.drop_last());
    }
}

/// After a partial success with an identity, the server may ask questions; without
/// one it may not.
pub proof fn law_questions_need_partial_success(step: LoginStep, event: LoginEvent)
    requires
        !(step is Keyboard),
    ensures
        login_after(step, event) is Keyboard <==> {
            &&& step is Identity
            &&& event matches LoginEvent::IdentityTried(
                IdentityOutcome::Rejected { partial_success, remaining_methods },
            )
            &&& partial_success
            &&& remaining_methods@.contains(AuthMethod::KeyboardInteractive)
        },
{
}

/// An address that was put together is taken apart into its host and port.
pub proof fn law_address_is_taken_apart(host: Seq<char>, port: u16)
    requires
        !host.contains(':'),
    ensures
        crate::cli::remote_of(host_and_port(host, port)) == Ok::<
            (Seq<char>, u16),
            crate::cli::CliError,
        >((host, port)),
{
    crate::cli::law_host_and_port_are_taken_apart(host, port);
}

} // verus!
