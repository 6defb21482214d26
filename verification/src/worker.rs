use vstd::prelude::*;

use crate::account::{AccountData, RdStatus};
use crate::account::AccountDataView;

verus! {

/// How long, in seconds, a started ability may stay without a connection.
pub const ZERO_CONNECTION_DISABLE_SECS: u64 = 60;

/// The same span in nanoseconds; `lemma_spans_agree` ties the two.
pub const ZERO_CONNECTION_DISABLE_NANOS: u128 = 60_000_000_000;

/// How often, in seconds, the connections are counted.
pub const ALIVE_CONN_POLL_INTERVAL_SECS: u64 = 10;

/// A command that is to be acknowledged.
#[derive(Clone, Copy, PartialEq, Eq, Structural)]
pub enum AbilityAckEvent {
    Start,
    Stop,
}

/// The word that an acknowledgement is published under.
#[derive(Clone, Copy, PartialEq, Eq, Structural)]
pub enum AckAction {
    Start,
    Stop,
}

impl AckAction {
    pub open spec fn word(self) -> Seq<char> {
        match self {
            AckAction::Start => "start"@,
            AckAction::Stop => "stop"@,
        }
    }

    pub fn as_str(self) -> (word: &'static str)
        ensures
            word@ == self.word(),
            self is Start ==> word@ == "start"@,
            self is Stop ==> word@ == "stop"@,
    {
        match self {
            AckAction::Start => "start",
            AckAction::Stop => "stop",
        }
    }
}

impl AbilityAckEvent {
    /// The acknowledgement of this command.
    pub open spec fn action(self) -> AckAction {
        match self {
            AbilityAckEvent::Start => AckAction::Start,
            AbilityAckEvent::Stop => AckAction::Stop,
        }
    }

    /// The state that the account is reported in after this command.
    pub open spec fn status(self) -> RdStatus {
        match self {
            AbilityAckEvent::Start => RdStatus::Running,
            AbilityAckEvent::Stop => RdStatus::Stopped,
        }
    }
}

/// What the worker is waiting for.
#[derive(Clone, Copy, PartialEq, Eq, Structural)]
pub enum WorkerPhase {
    /// The next command or the next tick.
    Waiting,
    /// The account, to acknowledge a command.
    Acking(AckAction),
    /// The account, to report the connections.
    Polling,
    /// Nothing more.
    Finished,
}

/// What reaches the worker.
pub enum WorkerEvent {
    /// A command, or `None` where no command can come any more.
    Received(Option<AbilityAckEvent>),
    /// The poll interval has passed.
    Ticked,
    /// The answer to a query of the account, and when it came, in nanoseconds on a clock
    /// that never goes back.
    Queried(Result<AccountData, String>, u128),
}

/// The model of `WorkerEvent`: of a failed query it keeps only that it failed.
pub enum WorkerEventView {
    Received(Option<AbilityAckEvent>),
    Ticked,
    Queried(Option<AccountDataView>, u128),
}

impl View for WorkerEvent {
    type V = WorkerEventView;

    open spec fn view(&self) -> WorkerEventView {
        match self {
            WorkerEvent::Received(command) => WorkerEventView::Received(*command),
            WorkerEvent::Ticked => WorkerEventView::Ticked,
            WorkerEvent::Queried(reply, now) => WorkerEventView::Queried(
                match reply {
                    Ok(data) => Some(data@),
                    Err(_) => None,
                },
                *now,
            ),
        }
    }
}

/// What the worker wants done before it is given the next event.
pub enum WorkerAction {
    /// Wait for a command or a tick.
    Wait,
    /// Query the account, to be reported in this state.
    Query(RdStatus),
    /// Publish this acknowledgement, then wait.
    Publish(AckAction, AccountData),
    /// End.
    Finish,
}

/// The model of `WorkerAction`.
pub enum WorkerActionView {
    Wait,
    Query(RdStatus),
    Publish(AckAction, AccountDataView),
    Finish,
}

impl View for WorkerAction {
    type V = WorkerActionView;

    open spec fn view(&self) -> WorkerActionView {
        match self {
            WorkerAction::Wait => WorkerActionView::Wait,
            WorkerAction::Query(status) => WorkerActionView::Query(*status),
            WorkerAction::Publish(action, data) => WorkerActionView::Publish(*action, data@),
            WorkerAction::Finish => WorkerActionView::Finish,
        }
    }
}

/// The number of connections that a report shows, read as an `i64`: one that is too large
/// for that reads as none.
pub open spec fn current_users(data: AccountDataView) -> int {
    if data.user_num <= i64::MAX {
        data.user_num as int
    } else {
        0
    }
}

/// The report with another state.
pub open spec fn with_status(data: AccountDataView, status: RdStatus) -> AccountDataView {
    AccountDataView { rd_status: status.word(), ..data }
}

/// The worker that acknowledges commands, reports the connections of a started ability and
/// stops an ability that nobody is connected to.
pub struct AbilityAckWorker {
    /// Whether the ability is started.
    pub started: bool,
    /// When the first poll of the present run of polls without a connection was answered.
    pub zero_connection_since: Option<u128>,
    pub phase: WorkerPhase,
}

impl AbilityAckWorker {
    /// The worker before its first event.
    pub open spec fn initial() -> AbilityAckWorker {
        AbilityAckWorker {
            started: false,
            zero_connection_since: None,
            phase: WorkerPhase::Waiting,
        }
    }

    /// What holds of every worker that started as `initial`: an ability that is not started
    /// is not polled, and no run without a connection is under way.
    pub open spec fn wf(self) -> bool {
        &&& self.phase is Polling ==> self.started
        &&& !self.started ==> self.zero_connection_since is None
        &&& self.phase is Acking ==> self.zero_connection_since is None
    }

    /// Whether the worker is waiting for this event.
    pub open spec fn expects(self, event: WorkerEventView) -> bool {
        match event {
            WorkerEventView::Received(_) | WorkerEventView::Ticked => self.phase is Waiting,
            WorkerEventView::Queried(_, _) => self.phase is Acking || self.phase is Polling,
        }
    }

    /// When the run without a connection began that a poll answered at `now` without a
    /// connection belongs to.
    pub open spec fn run_began(self, now: u128) -> u128 {
        match self.zero_connection_since {
            Some(since) => since,
            None => now,
        }
    }

    /// What becomes of the worker when a poll is answered, and what it publishes.
    pub open spec fn polled(self, data: AccountDataView, now: u128) -> (
        AbilityAckWorker,
        WorkerActionView,
    ) {
        let waiting = AbilityAckWorker { phase: WorkerPhase::Waiting, ..self };
        if current_users(data) != 0 {
            (
                AbilityAckWorker { zero_connection_since: None, ..waiting },
                WorkerActionView::Publish(AckAction::Start, data),
            )
        } else if now - self.run_began(now) >= ZERO_CONNECTION_DISABLE_NANOS {
            (
                AbilityAckWorker { started: false, zero_connection_since: None, ..waiting },
                WorkerActionView::Publish(AckAction::Stop, with_status(data, RdStatus::Stopped)),
            )
        } else {
            (
                AbilityAckWorker { zero_connection_since: Some(self.run_began(now)), ..waiting },
                WorkerActionView::Publish(AckAction::Start, data),
            )
        }
    }

    /// What becomes of the worker at an event that it expects, and what it wants done.
    pub open spec fn next(self, event: WorkerEventView) -> (AbilityAckWorker, WorkerActionView) {
        match (self.phase, event) {
            (WorkerPhase::Waiting, WorkerEventView::Received(Some(command))) => (
                AbilityAckWorker {
                    started: command is Start,
                    zero_connection_since: None,
                    phase: WorkerPhase::Acking(command.action()),
                },
                WorkerActionView::Query(command.status()),
            ),
            (WorkerPhase::Waiting, WorkerEventView::Received(None)) => (
                AbilityAckWorker { phase: WorkerPhase::Finished, ..self },
                WorkerActionView::Finish,
            ),
            (WorkerPhase::Waiting, WorkerEventView::Ticked) => if self.started {
                (
                    AbilityAckWorker { phase: WorkerPhase::Polling, ..self },
                    WorkerActionView::Query(RdStatus::Running),
                )
            } else {
                (
                    AbilityAckWorker { zero_connection_since: None, ..self },
                    WorkerActionView::Wait,
                )
            },
            (WorkerPhase::Acking(action), WorkerEventView::Queried(Some(data), _)) => (
                AbilityAckWorker { phase: WorkerPhase::Waiting, ..self },
                WorkerActionView::Publish(action, data),
            ),
            (WorkerPhase::Polling, WorkerEventView::Queried(Some(data), now)) => self.polled(
                data,
                now,
            ),
            (_, WorkerEventView::Queried(None, _)) => (
                AbilityAckWorker { phase: WorkerPhase::Waiting, ..self },
                WorkerActionView::Wait,
            ),
            _ => arbitrary(),
        }
    }

    pub fn new() -> (worker: AbilityAckWorker)
        ensures
            worker == AbilityAckWorker::initial(),
            !worker.started && worker.zero_connection_since is None && worker.phase is Waiting,
            worker.wf(),
    {
        AbilityAckWorker {
            started: false,
            zero_connection_since: None,
            phase: WorkerPhase::Waiting,
        }
    }

    /// Whether the worker is waiting for this event.
    pub fn is_waiting_for(&self, event: &WorkerEvent) -> (expected: bool)
        ensures
            expected == self.expects(event@),
            expected == if event is Queried {
                self.phase is Acking || self.phase is Polling
            } else {
                self.phase is Waiting
            },
    {
        match event {
            WorkerEvent::Received(_) | WorkerEvent::Ticked => matches!(self.phase, WorkerPhase::Waiting),
            WorkerEvent::Queried(_, _) => matches!(
                self.phase,
                WorkerPhase::Acking(_) | WorkerPhase::Polling
            ),
        }
    }

    /// Takes an event and says what is to be done.
    pub fn step(&mut self, event: WorkerEvent) -> (action: WorkerAction)
        requires
            old(self).expects(event@),
        ensures
            (*final(self), action@) == old(self).next(event@),
            old(self).wf() ==> final(self).wf(),
            event matches WorkerEvent::Received(None) ==> {
                &&& action is Finish
                &&& *final(self) == (AbilityAckWorker {
                    phase: WorkerPhase::Finished,
                    ..*old(self)
                })
            },
            event matches WorkerEvent::Received(Some(AbilityAckEvent::Start)) ==> {
                &&& action == WorkerAction::Query(RdStatus::Running)
                &&& *final(self) == (AbilityAckWorker {
                    started: true,
                    zero_connection_since: None,
                    phase: WorkerPhase::Acking(AckAction::Start),
                })
            },
            event matches WorkerEvent::Received(Some(AbilityAckEvent::Stop)) ==> {
                &&& action == WorkerAction::Query(RdStatus::Stopped)
                &&& *final(self) == (AbilityAckWorker {
                    started: false,
                    zero_connection_since: None,
                    phase: WorkerPhase::Acking(AckAction::Stop),
                })
            },
            event is Ticked && old(self).started ==> {
                &&& action == WorkerAction::Query(RdStatus::Running)
                &&& *final(self) == (AbilityAckWorker {
                    phase: WorkerPhase::Polling,
                    ..*old(self)
                })
            },
            event is Ticked && !old(self).started ==> {
                &&& action is Wait
                &&& *final(self) == (AbilityAckWorker {
                    zero_connection_since: None,
                    ..*old(self)
                })
            },
            event matches WorkerEvent::Queried(reply, now) ==> {
                let waiting = AbilityAckWorker { phase: WorkerPhase::Waiting, ..*old(self) };
                let since = if old(self).zero_connection_since is Some {
                    old(self).zero_connection_since->0
                } else {
                    now
                };
                match reply {
                    Err(_) => action is Wait && *final(self) == waiting,
                    Ok(data) => if old(self).phase is Acking {
                        &&& action == WorkerAction::Publish(old(self).phase->Acking_0, data)
                        &&& *final(self) == waiting
                    } else if 1 <= data.user_num <= i64::MAX {
                        &&& action == WorkerAction::Publish(AckAction::Start, data)
                        &&& *final(self) == (AbilityAckWorker {
                            zero_connection_since: None,
                            ..waiting
                        })
                    } else if now - since >= 60_000_000_000 {
                        &&& action is Publish
                        &&& action->Publish_0 is Stop
                        &&& action->Publish_1.rd_id == data.rd_id
                        &&& action->Publish_1.rd_pwd == data.rd_pwd
                        &&& action->Publish_1.sn_mac == data.sn_mac
                        &&& action->Publish_1.rd_status@ == "stopped"@
                        &&& action->Publish_1.ts == data.ts
                        &&& action->Publish_1.user_num == data.user_num
                        &&& *final(self) == (AbilityAckWorker {
                            started: false,
                            zero_connection_since: None,
                            ..waiting
                        })
                    } else {
                        &&& action == WorkerAction::Publish(AckAction::Start, data)
                        &&& *final(self) == (AbilityAckWorker {
                            zero_connection_since: Some(since),
                            ..waiting
                        })
                    },
                }
            },
    {
        match event {
            WorkerEvent::Received(None) => {
                self.phase = WorkerPhase::Finished;
                WorkerAction::Finish
            },
            WorkerEvent::Received(Some(AbilityAckEvent::Start)) => {
                self.zero_connection_since = None;
                self.started = true;
                self.phase = WorkerPhase::Acking(AckAction::Start);
                WorkerAction::Query(RdStatus::Running)
            },
            WorkerEvent::Received(Some(AbilityAckEvent::Stop)) => {
                self.zero_connection_since = None;
                self.started = false;
                self.phase = WorkerPhase::Acking(AckAction::Stop);
                WorkerAction::Query(RdStatus::Stopped)
            },
            WorkerEvent::Ticked => {
                if !self.started {
                    self.zero_connection_since = None;
                    return WorkerAction::Wait;
                }
                self.phase = WorkerPhase::Polling;
                WorkerAction::Query(RdStatus::Running)
            },
            WorkerEvent::Queried(Err(_), _) => {
                self.phase = WorkerPhase::Waiting;
                WorkerAction::Wait
            },
            WorkerEvent::Queried(Ok(data), now) => {
                let phase: WorkerPhase = self.phase;
                self.phase = WorkerPhase::Waiting;
                match phase {
                    WorkerPhase::Acking(action) => WorkerAction::Publish(action, data),
                    _ => self.report(data, now),
                }
            },
        }
    }

    /// Decides what a poll's answer means.
    fn report(&mut self, mut data: AccountData, now: u128) -> (action: WorkerAction)
        requires
            old(self).phase is Waiting,
        ensures
            (*final(self), action@) == old(self).polled(data@, now),
            1 <= data.user_num <= i64::MAX ==> {
                &&& action == WorkerAction::Publish(AckAction::Start, data)
                &&& *final(self) == (AbilityAckWorker { zero_connection_since: None, ..*old(self) })
            },
            !(1 <= data.user_num <= i64::MAX) ==> {
                let since = if old(self).zero_connection_since is Some {
                    old(self).zero_connection_since->0
                } else {
                    now
                };
                if now - since >= 60_000_000_000 {
                    &&& action is Publish
                    &&& action->Publish_0 is Stop
                    &&& action->Publish_1.rd_id == data.rd_id
                    &&& action->Publish_1.rd_pwd == data.rd_pwd
                    &&& action->Publish_1.sn_mac == data.sn_mac
                    &&& action->Publish_1.rd_status@ == "stopped"@
                    &&& action->Publish_1.ts == data.ts
                    &&& action->Publish_1.user_num == data.user_num
                    &&& *final(self) == (AbilityAckWorker {
                        started: false,
                        zero_connection_since: None,
                        ..*old(self)
                    })
                } else {
                    &&& action == WorkerAction::Publish(AckAction::Start, data)
                    &&& *final(self) == (AbilityAckWorker {
                        zero_connection_since: Some(since),
                        ..*old(self)
                    })
                }
            },
    {
        if data.user_num != 0 && data.user_num as u64 <= i64::MAX as u64 {
            self.zero_connection_since = None;
            return WorkerAction::Publish(AckAction::Start, data);
        }
        let since: u128 = match self.zero_connection_since {
            Some(since) => since,
            None => now,
        };
        self.zero_connection_since = Some(since);
        if now.saturating_sub(since) >= ZERO_CONNECTION_DISABLE_NANOS {
            data.rd_status = RdStatus::Stopped.as_str().to_owned();
            self.started = false;
            self.zero_connection_since = None;
            WorkerAction::Publish(AckAction::Stop, data)
        } else {
            WorkerAction::Publish(AckAction::Start, data)
        }
    }
}

}
