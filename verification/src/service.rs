//! The order in which the service comes up.
use vstd::prelude::*;

verus! {

/// The port of the loopback address that the account is asked for at.
pub const LISTEN_PORT: u16 = 3000;

/// How many commands may wait to be acknowledged.
pub const ACK_CHANNEL_CAPACITY: usize = 16;

/// What the service does next.
#[derive(Clone, Copy, PartialEq, Eq, Structural)]
pub enum ServiceStep {
    /// Open the zenoh session.
    OpenSession,
    /// Subscribe to the commands for the ability.
    Subscribe,
    /// Make the channel of the commands that wait to be acknowledged.
    OpenChannel,
    /// Listen for those who ask for the account.
    Listen,
    /// Start the worker that acknowledges, then answer those who ask.
    Serve,
    /// Nothing more.
    Finished,
}

impl ServiceStep {
    /// What the service does first.
    pub fn first() -> (step: ServiceStep)
        ensures
            step is OpenSession,
    {
        ServiceStep::OpenSession
    }

    /// What follows on a step that succeeded or failed: without a session, a subscription or
    /// a listener the service ends, while a channel that was there before is none the worse.
    pub open spec fn following(self, succeeded: bool) -> ServiceStep {
        match self {
            ServiceStep::OpenSession if succeeded => ServiceStep::Subscribe,
            ServiceStep::Subscribe if succeeded => ServiceStep::OpenChannel,
            ServiceStep::OpenChannel => ServiceStep::Listen,
            ServiceStep::Listen if succeeded => ServiceStep::Serve,
            _ => ServiceStep::Finished,
        }
    }

    /// What follows on a step that succeeded or failed.
    pub fn next(self, succeeded: bool) -> (step: ServiceStep)
        ensures
            step == self.following(succeeded),
            self is OpenSession ==> step == if succeeded {
                ServiceStep::Subscribe
            } else {
                ServiceStep::Finished
            },
            self is Subscribe ==> step == if succeeded {
                ServiceStep::OpenChannel
            } else {
                ServiceStep::Finished
            },
            self is OpenChannel ==> step is Listen,
            self is Listen ==> step == if succeeded {
                ServiceStep::Serve
            } else {
                ServiceStep::Finished
            },
            self is Serve || self is Finished ==> step is Finished,
    {
        match self {
            ServiceStep::OpenSession => if succeeded {
                ServiceStep::Subscribe
            } else {
                ServiceStep::Finished
            },
            ServiceStep::Subscribe => if succeeded {
                ServiceStep::OpenChannel
            } else {
                ServiceStep::Finished
            },
            ServiceStep::OpenChannel => ServiceStep::Listen,
            ServiceStep::Listen => if succeeded {
                ServiceStep::Serve
            } else {
                ServiceStep::Finished
            },
            ServiceStep::Serve | ServiceStep::Finished => ServiceStep::Finished,
        }
    }
}

/// The step that the service is at after steps with these outcomes.
pub open spec fn step_after(outcomes: Seq<bool>) -> ServiceStep
    decreases outcomes.len(),
{
    if outcomes.len() == 0 {
        ServiceStep::OpenSession
    } else {
        step_after(outcomes.drop_last()).following(outcomes.last())
    }
}

/// The service serves, and starts its worker, only after the session, the subscription and
/// the listener were all had, and at the fifth step at that.
pub proof fn lemma_serving_has_everything(outcomes: Seq<bool>)
    ensures
        step_after(outcomes) is Serve <==> outcomes.len() == 4 && outcomes[0] && outcomes[1]
            && outcomes[3],
{
    reveal_with_fuel(step_after, 6);
    if outcomes.len() > 4 {
        lemma_over_after_serving(outcomes);
    } else {
        assert(outcomes.len() > 0 ==> outcomes.drop_last() == outcomes.take(outcomes.len() - 1));
    }
}

proof fn lemma_over_after_serving(outcomes: Seq<bool>)
    requires
        outcomes.len() > 4,
    ensures
        step_after(outcomes) is Finished,
    decreases outcomes.len(),
{
    reveal_with_fuel(step_after, 6);
    if outcomes.len() > 5 {
        lemma_over_after_serving(outcomes.drop_last());
    }
}

}
