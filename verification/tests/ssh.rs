use ssh_proxy::host::ssh::{
    check_server_key, continue_login, keyboard_interactive_info_request, start_login, AuthMethod,
    HostKeyEvent, HostKeyStep, IdentityOutcome, KeyboardReply, LoginError, LoginEvent, LoginStep,
    Prompt, PromptKind, SshConfig,
};

fn config() -> SshConfig {
    SshConfig {
        user: "alice".to_string(),
        host: "server.example.com".to_string(),
        port: 2222,
        identity: None,
        remote_binary: "/usr/local/bin/ssh-proxy".to_string(),
    }
}

#[test]
fn texts_of_a_session() {
    let config = config();
    assert_eq!(config.address(), "server.example.com:2222");
    assert_eq!(config.command(), "/usr/local/bin/ssh-proxy remote");
    assert_eq!(config.password_prompt(), "Password for alice@server.example.com: ");
    assert_eq!(
        config.host_key_prompt("SHA256:abc"),
        "server.example.com:2222 add key SHA256:abc"
    );
}

#[test]
fn server_keys() {
    let look = HostKeyStep::LookUp;
    assert_eq!(
        check_server_key(look, HostKeyEvent::LookedUp { known: true }),
        HostKeyStep::Accept
    );
    assert_eq!(check_server_key(look, HostKeyEvent::LookedUp { known: false }), HostKeyStep::Ask);
    assert_eq!(
        check_server_key(look, HostKeyEvent::LookUpFailed),
        HostKeyStep::KnownHostsFailed
    );
    let ask = HostKeyStep::Ask;
    assert_eq!(check_server_key(ask, HostKeyEvent::Answered { yes: true }), HostKeyStep::Learn);
    assert_eq!(check_server_key(ask, HostKeyEvent::Answered { yes: false }), HostKeyStep::Refuse);
    assert_eq!(check_server_key(ask, HostKeyEvent::NotAnswered), HostKeyStep::Refuse);
    let learn = HostKeyStep::Learn;
    assert_eq!(check_server_key(learn, HostKeyEvent::Learned), HostKeyStep::Accept);
    assert_eq!(check_server_key(learn, HostKeyEvent::NotLearned), HostKeyStep::LearnFailed);
    assert_eq!(check_server_key(ask, HostKeyEvent::Learned), ask);
}

#[test]
fn a_private_key_is_tried_alone() {
    let with_key =
        SshConfig { identity: Some(std::path::PathBuf::from("/home/alice/key")), ..config() };
    assert_eq!(start_login(&with_key), LoginStep::Key);
    let after = |event| continue_login(LoginStep::Key, event);
    assert_eq!(
        after(LoginEvent::KeyNotLoaded),
        LoginStep::Failed(LoginError::KeyNotLoaded)
    );
    assert_eq!(after(LoginEvent::KeyTried(Some(true))), LoginStep::LoggedIn);
    assert_eq!(
        after(LoginEvent::KeyTried(Some(false))),
        LoginStep::Failed(LoginError::Rejected)
    );
    assert_eq!(after(LoginEvent::KeyTried(None)), LoginStep::Failed(LoginError::KeyFailed));
    assert_eq!(after(LoginEvent::PasswordTried(Some(true))), LoginStep::Key);
}

fn rejected(partial_success: bool, remaining_methods: Vec<AuthMethod>) -> LoginEvent {
    LoginEvent::IdentityTried(IdentityOutcome::Rejected { partial_success, remaining_methods })
}

#[test]
fn the_agent_then_the_keyboard_then_the_password() {
    assert_eq!(start_login(&config()), LoginStep::Agent);
    let agent = |n| continue_login(LoginStep::Agent, LoginEvent::AgentListed(n));
    assert_eq!(agent(None), LoginStep::Password);
    assert_eq!(agent(Some(0)), LoginStep::Password);
    let first = agent(Some(3));
    assert_eq!(first, LoginStep::Identity { index: 0, count: 3 });
    assert_eq!(
        continue_login(first, LoginEvent::IdentityTried(IdentityOutcome::Accepted)),
        LoginStep::LoggedIn
    );
    let second =
        continue_login(first, rejected(false, vec![AuthMethod::KeyboardInteractive]));
    assert_eq!(second, LoginStep::Identity { index: 1, count: 3 });
    // Partial success, but no questions on offer
    let third = continue_login(second, rejected(true, vec![AuthMethod::Password]));
    assert_eq!(third, LoginStep::Identity { index: 2, count: 3 });
    let offers = vec![AuthMethod::PublicKey, AuthMethod::KeyboardInteractive];
    let keyboard = continue_login(third, rejected(true, offers));
    assert_eq!(keyboard, LoginStep::Keyboard { index: 2, count: 3 });
    let reply = |r| continue_login(keyboard, LoginEvent::KeyboardReplied(r));
    assert_eq!(reply(KeyboardReply::Asks), keyboard);
    assert_eq!(reply(KeyboardReply::Accepted), LoginStep::LoggedIn);
    assert_eq!(reply(KeyboardReply::Error), LoginStep::Password);
    assert_eq!(reply(KeyboardReply::Refused), LoginStep::Password);
    let early = LoginStep::Keyboard { index: 0, count: 3 };
    assert_eq!(
        continue_login(early, LoginEvent::KeyboardReplied(KeyboardReply::Refused)),
        second
    );
    assert_eq!(
        continue_login(third, LoginEvent::IdentityTried(IdentityOutcome::Error)),
        LoginStep::Password
    );
}

#[test]
fn passwords() {
    let after = |event| continue_login(LoginStep::Password, event);
    assert_eq!(after(LoginEvent::PasswordTried(Some(true))), LoginStep::LoggedIn);
    assert_eq!(
        after(LoginEvent::PasswordTried(Some(false))),
        LoginStep::Failed(LoginError::Rejected)
    );
    assert_eq!(
        after(LoginEvent::PasswordTried(None)),
        LoginStep::Failed(LoginError::PasswordFailed)
    );
    assert_eq!(
        after(LoginEvent::PasswordNotRead),
        LoginStep::Failed(LoginError::PasswordNotRead)
    );
    let done = LoginStep::LoggedIn;
    assert_eq!(continue_login(done, LoginEvent::PasswordNotRead), done);
}

#[test]
fn questions_of_the_server() {
    let ask = |text: &str, echo| Prompt { prompt: text.to_string(), echo };
    let prompts = vec![ask("", true), ask("Name: ", true), ask("Code: ", false), ask("", false)];
    assert_eq!(
        keyboard_interactive_info_request(&prompts),
        vec![PromptKind::Empty, PromptKind::Text, PromptKind::Password, PromptKind::Empty]
    );
    assert!(keyboard_interactive_info_request(&vec![]).is_empty());
}
