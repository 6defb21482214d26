//! The order in which the server is set up, and what holds of it once it is ready.
use vstd::prelude::*;

use crate::identity::id_of_hostname;
use crate::options::{Configuration, OptionKey, ServerSites, changed, startup_changes};
use crate::password::password_of_day;

verus! {

/// What is done next to set the server up.
#[derive(Clone, Copy, PartialEq, Eq, Structural)]
pub enum SetupStep {
    /// Make the changes of the configuration that a start asks for.
    ApplyOptions,
    /// Take the identity that the name of the host makes, or a random one.
    SetIdentity,
    /// Let only the permanent password open a connection.
    SetVerification,
    /// Make the password of the day from the identity as it is now, and store it.
    SetPassword,
    /// Mark the server as set up.
    MarkReady,
    /// The server is set up: keep its password that of the day.
    KeepPassword,
}

impl SetupStep {
    /// What is done first.
    pub fn first() -> (step: SetupStep)
        ensures
            step is ApplyOptions,
    {
        SetupStep::ApplyOptions
    }

    /// What follows on a step, whatever came of it.
    pub open spec fn following(self) -> SetupStep {
        match self {
            SetupStep::ApplyOptions => SetupStep::SetIdentity,
            SetupStep::SetIdentity => SetupStep::SetVerification,
            SetupStep::SetVerification => SetupStep::SetPassword,
            SetupStep::SetPassword => SetupStep::MarkReady,
            SetupStep::MarkReady => SetupStep::KeepPassword,
            SetupStep::KeepPassword => SetupStep::KeepPassword,
        }
    }

    /// What follows on a step, whatever came of it.
    pub fn next(self) -> (step: SetupStep)
        ensures
            step == self.following(),
            self is ApplyOptions ==> step is SetIdentity,
            self is SetIdentity ==> step is SetVerification,
            self is SetVerification ==> step is SetPassword,
            self is SetPassword ==> step is MarkReady,
            self is MarkReady || self is KeepPassword ==> step is KeepPassword,
    {
        match self {
            SetupStep::ApplyOptions => SetupStep::SetIdentity,
            SetupStep::SetIdentity => SetupStep::SetVerification,
            SetupStep::SetVerification => SetupStep::SetPassword,
            SetupStep::SetPassword => SetupStep::MarkReady,
            SetupStep::MarkReady | SetupStep::KeepPassword => SetupStep::KeepPassword,
        }
    }
}

/// The step that comes after `done` others.
pub open spec fn step_at(done: nat) -> SetupStep
    decreases done,
{
    if done == 0 {
        SetupStep::ApplyOptions
    } else {
        step_at((done - 1) as nat).following()
    }
}

/// What a set-up meets with.
pub struct SetupInputs {
    pub sites: ServerSites,
    /// The options that have a default already.
    pub present: Seq<OptionKey>,
    pub hostname: Seq<char>,
    /// The identity that is taken where the host's name makes none.
    pub random_id: Seq<char>,
    /// The day on which the password is made.
    pub date: (int, int, int),
    /// Whether the password can be stored.
    pub stored: bool,
}

/// What a set-up works on: the configuration, the identity, the password and whether the
/// server is set up.
#[verifier::ext_equal]
pub struct ServerModel {
    pub configuration: Configuration,
    pub id: Seq<char>,
    pub password: Seq<char>,
    pub ready: bool,
}

/// The identity that a set-up gives.
pub open spec fn given_id(inputs: SetupInputs) -> Seq<char> {
    match id_of_hostname(inputs.hostname) {
        Some(id) => id,
        None => inputs.random_id,
    }
}

/// The configuration in which only the permanent password opens a connection.
pub open spec fn with_verification(configuration: Configuration) -> Configuration {
    Configuration {
        options: configuration.options.insert(
            OptionKey::VerificationMethod,
            "use-permanent-password"@,
        ),
        ..configuration
    }
}

/// The server after a step.
pub open spec fn performed(
    server: ServerModel,
    step: SetupStep,
    inputs: SetupInputs,
) -> ServerModel {
    match step {
        SetupStep::ApplyOptions => ServerModel {
            configuration: changed(
                server.configuration,
                startup_changes(inputs.sites, inputs.present),
            ),
            ..server
        },
        SetupStep::SetIdentity => ServerModel { id: given_id(inputs), ..server },
        SetupStep::SetVerification => ServerModel {
            configuration: with_verification(server.configuration),
            ..server
        },
        SetupStep::SetPassword => ServerModel {
            password: if inputs.stored {
                password_of_day(inputs.date, server.id)
            } else {
                server.password
            },
            ..server
        },
        SetupStep::MarkReady => ServerModel { ready: true, ..server },
        SetupStep::KeepPassword => server,
    }
}

/// The server after the first `done` steps.
pub open spec fn server_after(server: ServerModel, inputs: SetupInputs, done: nat) -> ServerModel
    decreases done,
{
    if done == 0 {
        server
    } else {
        performed(
            server_after(server, inputs, (done - 1) as nat),
            step_at((done - 1) as nat),
            inputs,
        )
    }
}

/// The server is marked as set up at the fifth step and at no other, after the options, the
/// identity, the verification and the password, in this order.
pub proof fn lemma_ready_comes_last(done: nat)
    ensures
        step_at(done) is MarkReady <==> done == 4,
        step_at(0) is ApplyOptions,
        step_at(1) is SetIdentity,
        step_at(2) is SetVerification,
        step_at(3) is SetPassword,
        done > 4 ==> step_at(done) is KeepPassword,
    decreases done,
{
    reveal_with_fuel(step_at, 6);
    if done > 5 {
        lemma_ready_comes_last((done - 1) as nat);
    }
}

/// A server that is ready has the startup configuration and lets only the permanent password
/// open a connection; its identity is the one that the set-up gave it; and its password,
/// where it could be stored, is that of the day for this very identity. It is ready once all
/// five steps are done, and not before.
pub proof fn lemma_ready_server_is_set_up(server: ServerModel, inputs: SetupInputs, done: nat)
    requires
        !server.ready,
    ensures
        server_after(server, inputs, done).ready <==> done >= 5,
        done >= 5 ==> server_after(server, inputs, done) == (ServerModel {
            configuration: with_verification(
                changed(server.configuration, startup_changes(inputs.sites, inputs.present)),
            ),
            id: given_id(inputs),
            password: if inputs.stored {
                password_of_day(inputs.date, given_id(inputs))
            } else {
                server.password
            },
            ready: true,
        }),
    decreases done,
{
    reveal_with_fuel(server_after, 6);
    lemma_ready_comes_last(0);
    lemma_ready_comes_last(4);
    if done > 5 {
        lemma_ready_comes_last((done - 1) as nat);
        lemma_ready_server_is_set_up(server, inputs, (done - 1) as nat);
    }
}

}
