//! Which steps the login takes, and in which order.

use vstd::prelude::*;

use crate::host::ssh;
use crate::host::ssh::{
    AuthMethod, HostKeyEvent, HostKeyStep, IdentityOutcome, KeyboardReply, LoginError, LoginEvent,
    LoginStep, Prompt, PromptKind,
};

verus! {

/// Whether the server has questions for the user behind an identity.
pub open spec fn has_questions(outcome: IdentityOutcome) -> bool {
    outcome matches IdentityOutcome::Rejected { partial_success, remaining_methods }
        && partial_success && remaining_methods@.contains(AuthMethod::KeyboardInteractive)
}

/// Whether an identity is done with, and did not get the user in: it was rejected
/// without questions, or the attempt failed.
pub open spec fn turned_down(event: LoginEvent) -> bool {
    event matches LoginEvent::IdentityTried(outcome) && !(outcome is Accepted) && !has_questions(
        outcome,
    )
}

/// No identity of the agent is skipped: behind one that was turned down, or whose
/// questions were answered in vain, the next one is tried, for as long as there is one,
/// however many there are. Behind the last one comes the password.
pub proof fn law_no_identity_is_skipped(index: usize, count: usize, event: LoginEvent)
    ensures
        turned_down(event) && index + 1 < count ==> ssh::login_after(
            LoginStep::Identity { index, count },
            event,
        ) == (LoginStep::Identity { index: (index + 1) as usize, count }),
        turned_down(event) && index + 1 >= count ==> ssh::login_after(
            LoginStep::Identity { index, count },
            event,
        ) == LoginStep::Password,
        index + 1 < count ==> ssh::login_after(
            LoginStep::Keyboard { index, count },
            LoginEvent::KeyboardReplied(KeyboardReply::Refused),
        ) == (LoginStep::Identity { index: (index + 1) as usize, count }),
        index + 1 >= count ==> ssh::login_after(
            LoginStep::Keyboard { index, count },
            LoginEvent::KeyboardReplied(KeyboardReply::Refused),
        ) == LoginStep::Password,
        count > 0 ==> ssh::login_after(LoginStep::Agent, LoginEvent::AgentListed(Some(count))) == (
        LoginStep::Identity { index: 0, count }),
{
}

/// The password comes only where nothing else is left: without an agent, without an
/// identity, behind the last identity, or behind a dialogue that broke down.
pub proof fn law_when_the_password_is_asked_for(step: LoginStep, event: LoginEvent)
    requires
        step != LoginStep::Password,
    ensures
        ssh::login_after(step, event) == LoginStep::Password <==> (match step {
            LoginStep::Agent => event == LoginEvent::AgentListed(None) || event
                == LoginEvent::AgentListed(Some(0)),
            LoginStep::Identity { index, count } => turned_down(event) && index + 1 >= count,
            LoginStep::Keyboard { index, count } => {
                ||| event == LoginEvent::KeyboardReplied(KeyboardReply::Error)
                ||| event == LoginEvent::KeyboardReplied(KeyboardReply::Refused) && index + 1
                    >= count
            },
            _ => false,
        }),
{
}

/// The number of identities stays what the agent said.
pub proof fn law_the_number_of_identities_stays(step: LoginStep, event: LoginEvent, count: usize)
    requires
        step matches LoginStep::Identity { count: before, .. } ==> before == count,
        step matches LoginStep::Keyboard { count: before, .. } ==> before == count,
        step == LoginStep::Agent ==> event == LoginEvent::AgentListed(Some(count)),
    ensures
        ssh::login_after(step, event) matches LoginStep::Identity { count: after, .. } ==> after
            == count,
        ssh::login_after(step, event) matches LoginStep::Keyboard { count: after, .. } ==> after
            == count,
{
}

/// After an agent with `count` identities, of which as many as there are events were
/// turned down, the next one is tried; after all of them, the password.
pub proof fn law_identities_are_tried_one_by_one(count: usize, events: Seq<LoginEvent>)
    requires
        events.len() <= count,
        forall|i: int| 0 <= i < events.len() ==> turned_down(#[trigger] events[i]),
    ensures
        ssh::login_run(false, seq![LoginEvent::AgentListed(Some(count))] + events) == (
        if events.len() < count {
            LoginStep::Identity { index: events.len() as usize, count }
        } else {
            LoginStep::Password
        }),
    decreases events.len(),
{
    let listed = seq![LoginEvent::AgentListed(Some(count))];
    let all = listed + events;
    if events.len() == 0 {
        assert(all =~= listed);
        assert(listed.drop_last() =~= Seq::<LoginEvent>::empty());
        assert(ssh::login_run(false, listed.drop_last()) == LoginStep::Agent);
    } else {
        let earlier = events.drop_last();
        assert forall|i: int| 0 <= i < earlier.len() implies turned_down(#[trigger] earlier[i]) by {
            assert(earlier[i] == events[i]);
        }
        law_identities_are_tried_one_by_one(count, earlier);
        assert(all.drop_last() =~= listed + earlier);
        assert(turned_down(events[events.len() - 1]));
        law_no_identity_is_skipped(
            earlier.len() as usize,
            count,
            events.last(),
        );
    }
}

/// An identity behind which the server has questions leads to them; they go on for as
/// long as the server asks.
pub proof fn law_questions_are_answered(index: usize, count: usize, outcome: IdentityOutcome)
    ensures
        has_questions(outcome) ==> ssh::login_after(
            LoginStep::Identity { index, count },
            LoginEvent::IdentityTried(outcome),
        ) == (LoginStep::Keyboard { index, count }),
        ssh::login_after(
            LoginStep::Keyboard { index, count },
            LoginEvent::KeyboardReplied(KeyboardReply::Asks),
        ) == (LoginStep::Keyboard { index, count }),
{
}

/// The user is logged in as soon as the server lets them in by what is tried.
pub proof fn law_the_server_lets_in(step: LoginStep, event: LoginEvent)
    requires
        step != LoginStep::LoggedIn,
    ensures
        ssh::login_after(step, event) == LoginStep::LoggedIn <==> (match step {
            LoginStep::Key => event == LoginEvent::KeyTried(Some(true)),
            LoginStep::Identity { .. } => event == LoginEvent::IdentityTried(
                IdentityOutcome::Accepted,
            ),
            LoginStep::Keyboard { .. } => event == LoginEvent::KeyboardReplied(
                KeyboardReply::Accepted,
            ),
            LoginStep::Password => event == LoginEvent::PasswordTried(Some(true)),
            _ => false,
        }),
{
}

/// The login fails only by the key or the password, each with its own error; neither
/// the agent nor one of its identities makes it fail.
pub proof fn law_how_the_login_fails(step: LoginStep, event: LoginEvent, error: LoginError)
    requires
        !(step is Failed),
    ensures
        ssh::login_after(step, event) == LoginStep::Failed(error) <==> (match step {
            LoginStep::Key => {
                ||| event == LoginEvent::KeyNotLoaded && error == LoginError::KeyNotLoaded
                ||| event == LoginEvent::KeyTried(Some(false)) && error == LoginError::Rejected
                ||| event == LoginEvent::KeyTried(None) && error == LoginError::KeyFailed
            },
            LoginStep::Password => {
                ||| event == LoginEvent::PasswordNotRead && error == LoginError::PasswordNotRead
                ||| event == LoginEvent::PasswordTried(Some(false)) && error
                    == LoginError::Rejected
                ||| event == LoginEvent::PasswordTried(None) && error
                    == LoginError::PasswordFailed
            },
            _ => false,
        }),
{
}

/// What does not belong to a step changes nothing, and the end of the login is the end.
pub proof fn law_what_does_not_belong_is_ignored(step: LoginStep, event: LoginEvent)
    requires
        match step {
            LoginStep::Key => !(event is KeyNotLoaded) && !(event is KeyTried),
            LoginStep::Agent => !(event is AgentListed),
            LoginStep::Identity { .. } => !(event is IdentityTried),
            LoginStep::Keyboard { .. } => !(event is KeyboardReplied),
            LoginStep::Password => !(event is PasswordNotRead) && !(event is PasswordTried),
            _ => true,
        },
    ensures
        ssh::login_after(step, event) == step,
{
}

/// The login starts with the key where there is one, else with the agent.
pub proof fn law_how_the_login_starts(with_key: bool)
    ensures
        with_key ==> ssh::login_start(with_key) == LoginStep::Key,
        !with_key ==> ssh::login_start(with_key) == LoginStep::Agent,
{
}

/// The session goes on exactly with a key that is known, or that was just learned.
pub proof fn law_when_a_host_key_is_accepted(step: HostKeyStep, event: HostKeyEvent)
    requires
        step != HostKeyStep::Accept,
    ensures
        ssh::host_key_after(step, event) == HostKeyStep::Accept <==> {
            ||| step == HostKeyStep::LookUp && event == (HostKeyEvent::LookedUp { known: true })
            ||| step == HostKeyStep::Learn && event == HostKeyEvent::Learned
        },
{
}

/// The user is asked about a key that is not known, and the key is learned exactly when
/// they agree.
pub proof fn law_when_a_host_key_is_learned(step: HostKeyStep, event: HostKeyEvent)
    ensures
        step != HostKeyStep::Ask ==> (ssh::host_key_after(step, event) == HostKeyStep::Ask <==> step
            == HostKeyStep::LookUp && event == (HostKeyEvent::LookedUp { known: false })),
        step != HostKeyStep::Learn ==> (ssh::host_key_after(step, event) == HostKeyStep::Learn
            <==> step == HostKeyStep::Ask && event == (HostKeyEvent::Answered { yes: true })),
{
}

/// The session is broken off exactly when the user does not agree, when the known keys
/// cannot be read, or when the key cannot be learned.
pub proof fn law_when_a_host_key_is_refused(step: HostKeyStep, event: HostKeyEvent)
    ensures
        step != HostKeyStep::Refuse ==> (ssh::host_key_after(step, event) == HostKeyStep::Refuse
            <==> step == HostKeyStep::Ask && (event == (HostKeyEvent::Answered { yes: false })
            || event == HostKeyEvent::NotAnswered)),
        step != HostKeyStep::KnownHostsFailed ==> (ssh::host_key_after(step, event)
            == HostKeyStep::KnownHostsFailed <==> step == HostKeyStep::LookUp && event
            == HostKeyEvent::LookUpFailed),
        step != HostKeyStep::LearnFailed ==> (ssh::host_key_after(step, event)
            == HostKeyStep::LearnFailed <==> step == HostKeyStep::Learn && event
            == HostKeyEvent::NotLearned),
{
}

/// The word about a key is final; and a look-up never comes again.
pub proof fn law_the_word_about_a_host_key_is_final(step: HostKeyStep, event: HostKeyEvent)
    ensures
        step == HostKeyStep::Accept || step == HostKeyStep::Refuse || step
            == HostKeyStep::KnownHostsFailed || step == HostKeyStep::LearnFailed
            ==> ssh::host_key_after(step, event) == step,
        ssh::host_key_after(step, event) == HostKeyStep::LookUp ==> step == HostKeyStep::LookUp,
{
}

/// A question without a text is answered without asking; any other is asked, and the
/// answer is shown exactly when the server allows it.
pub proof fn law_how_questions_are_answered(prompt: Prompt)
    ensures
        ssh::prompt_kind(prompt) == PromptKind::Empty <==> prompt.prompt@.len() == 0,
        ssh::prompt_kind(prompt) == PromptKind::Text <==> prompt.prompt@.len() > 0 && prompt.echo,
        ssh::prompt_kind(prompt) == PromptKind::Password <==> prompt.prompt@.len() > 0
            && !prompt.echo,
{
}

} // verus!
