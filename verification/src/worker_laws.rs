//! What holds of the acknowledgement worker over any course of events.
use vstd::prelude::*;

use crate::account::AccountDataView;
use crate::account::{AccountData, RdStatus};
use crate::worker::{AbilityAckEvent, AbilityAckWorker, AckAction, WorkerPhase};
use crate::worker::{WorkerAction, WorkerActionView, WorkerEvent, WorkerEventView};
use crate::worker::{ZERO_CONNECTION_DISABLE_NANOS, ZERO_CONNECTION_DISABLE_SECS};
use crate::worker::{current_users, with_status};

verus! {

/// The worker after these events, the first of which met it as it was made.
pub open spec fn state_after(events: Seq<WorkerEventView>) -> AbilityAckWorker
    decreases events.len(),
{
    if events.len() == 0 {
        AbilityAckWorker::initial()
    } else {
        state_after(events.drop_last()).next(events.last()).0
    }
}

/// The worker that the event at `at` meets.
pub open spec fn state_at(events: Seq<WorkerEventView>, at: int) -> AbilityAckWorker {
    state_after(events.take(at))
}

/// What the worker wants done at the event at `at`.
pub open spec fn action_at(events: Seq<WorkerEventView>, at: int) -> WorkerActionView {
    state_at(events, at).next(events[at]).1
}

/// Every event came when the worker expected it.
pub open spec fn admissible(events: Seq<WorkerEventView>) -> bool {
    forall|at: int|
        0 <= at < events.len() ==> (#[trigger] state_at(events, at)).expects(events[at])
}

/// The event at `at` answers a poll.
pub open spec fn is_poll(events: Seq<WorkerEventView>, at: int) -> bool {
    state_at(events, at).phase is Polling && events[at] matches WorkerEventView::Queried(Some(_), _)
}

/// What the poll at `at` was answered.
pub open spec fn poll_data(events: Seq<WorkerEventView>, at: int) -> AccountDataView {
    events[at]->Queried_0->0
}

/// When the poll at `at` was answered.
pub open spec fn poll_time(events: Seq<WorkerEventView>, at: int) -> u128 {
    events[at]->Queried_1
}

/// The event at `at` answers a poll, and shows no connection.
pub open spec fn is_idle_poll(events: Seq<WorkerEventView>, at: int) -> bool {
    is_poll(events, at) && current_users(poll_data(events, at)) == 0
}

/// From `from` up to but without `to` no command came, and no poll showed a connection.
pub open spec fn idle_between(events: Seq<WorkerEventView>, from: int, to: int) -> bool {
    forall|at: int|
        from <= at < to ==> !(#[trigger] events[at] matches WorkerEventView::Received(Some(_))) && (
        is_poll(events, at) ==> is_idle_poll(events, at))
}

/// The polls were answered at times that never go back.
pub open spec fn clock_runs_forward(events: Seq<WorkerEventView>) -> bool {
    forall|a: int, b: int|
        0 <= a <= b < events.len() && #[trigger] is_poll(events, a) && #[trigger] is_poll(events, b)
            ==> poll_time(events, a) <= poll_time(events, b)
}

/// The event at `at` ends the ability: a poll is answered with a stop.
pub open spec fn is_shutdown(events: Seq<WorkerEventView>, at: int) -> bool {
    is_poll(events, at) && action_at(events, at) matches WorkerActionView::Publish(
        AckAction::Stop,
        _,
    )
}

/// The span that an idle ability is granted is the same in seconds and in nanoseconds.
pub proof fn lemma_spans_agree()
    ensures
        ZERO_CONNECTION_DISABLE_NANOS == ZERO_CONNECTION_DISABLE_SECS * 1_000_000_000,
{
}

proof fn lemma_next_state(events: Seq<WorkerEventView>, at: int)
    requires
        0 <= at < events.len(),
    ensures
        state_at(events, at + 1) == state_at(events, at).next(events[at]).0,
{
    assert(events.take(at + 1).drop_last() == events.take(at));
}

/// The worker is well formed at every point of its life.
pub proof fn lemma_always_well_formed(events: Seq<WorkerEventView>, at: int)
    requires
        admissible(events),
        0 <= at <= events.len(),
    ensures
        state_at(events, at).wf(),
    decreases at,
{
    if at > 0 {
        lemma_always_well_formed(events, at - 1);
        lemma_next_state(events, at - 1);
        assert(state_at(events, at - 1).expects(events[at - 1]));
    }
}

/// A run without a connection began with the answer to a poll that showed none, and since
/// then no command came and no poll showed a connection.
proof fn lemma_run_began(events: Seq<WorkerEventView>, at: int) -> (from: int)
    requires
        admissible(events),
        0 <= at <= events.len(),
        state_at(events, at).zero_connection_since is Some,
    ensures
        0 <= from < at,
        is_idle_poll(events, from),
        poll_time(events, from) == state_at(events, at).zero_connection_since->0,
        idle_between(events, from, at),
    decreases at,
{
    assert(at > 0);
    let before = state_at(events, at - 1);
    lemma_next_state(events, at - 1);
    assert(before.expects(events[at - 1]));
    if before.zero_connection_since is Some {
        let from = lemma_run_began(events, at - 1);
        assert(state_at(events, at).zero_connection_since == before.zero_connection_since);
        from
    } else {
        assert(is_idle_poll(events, at - 1));
        at - 1
    }
}

/// The worker stops an ability by itself only at a poll that shows no connection, and only
/// when an earlier poll, at least a minute before, showed none either, while in between no
/// command came and no poll showed a connection.
pub proof fn lemma_shutdown_has_cause(events: Seq<WorkerEventView>, at: int) -> (from: int)
    requires
        admissible(events),
        0 <= at < events.len(),
        is_shutdown(events, at),
    ensures
        0 <= from < at,
        is_idle_poll(events, from),
        is_idle_poll(events, at),
        idle_between(events, from, at),
        poll_time(events, at) - poll_time(events, from) >= ZERO_CONNECTION_DISABLE_NANOS,
{
    lemma_run_began(events, at)
}

proof fn lemma_run_lasts(events: Seq<WorkerEventView>, from: int, at: int)
    requires
        admissible(events),
        clock_runs_forward(events),
        0 <= from < at <= events.len(),
        is_idle_poll(events, from),
        idle_between(events, from, at),
        forall|k: int| from <= k < at ==> !#[trigger] is_shutdown(events, k),
    ensures
        state_at(events, at).zero_connection_since is Some,
        state_at(events, at).zero_connection_since->0 <= poll_time(events, from),
        state_at(events, at).started,
    decreases at,
{
    let last = at - 1;
    lemma_next_state(events, last);
    lemma_always_well_formed(events, last);
    let before = state_at(events, last);
    assert(before.expects(events[last]));
    assert(!is_shutdown(events, last));
    assert(!(events[last] matches WorkerEventView::Received(Some(_))));
    if last > from {
        lemma_run_lasts(events, from, last);
    } else if before.zero_connection_since is Some {
        let earlier = lemma_run_began(events, last);
        assert(is_poll(events, earlier) && is_poll(events, from));
    }
}

/// An ability that stays without a connection is stopped: where two polls at least a minute
/// apart show none, and in between no command came and no poll showed a connection, the
/// worker has stopped the ability by the second of them.
pub proof fn lemma_idle_ability_is_shut_down(
    events: Seq<WorkerEventView>,
    from: int,
    at: int,
) -> (end: int)
    requires
        admissible(events),
        clock_runs_forward(events),
        0 <= from < at < events.len(),
        is_idle_poll(events, from),
        is_idle_poll(events, at),
        idle_between(events, from, at),
        poll_time(events, at) - poll_time(events, from) >= ZERO_CONNECTION_DISABLE_NANOS,
    ensures
        from <= end <= at,
        is_shutdown(events, end),
{
    if forall|k: int| from <= k < at ==> !#[trigger] is_shutdown(events, k) {
        lemma_run_lasts(events, from, at);
        assert(is_shutdown(events, at));
        at
    } else {
        choose|k: int| from <= k < at && #[trigger] is_shutdown(events, k)
    }
}

/// Every command is answered: when the account can be read, with the acknowledgement of
/// that command and the account as it was read.
pub proof fn lemma_command_is_acknowledged(
    worker: AbilityAckWorker,
    command: AbilityAckEvent,
    data: AccountDataView,
    now: u128,
)
    requires
        worker.phase is Waiting,
    ensures
        ({
            let (asked, query) = worker.next(WorkerEventView::Received(Some(command)));
            let (acked, publication) = asked.next(WorkerEventView::Queried(Some(data), now));
            &&& query == WorkerActionView::Query(command.status())
            &&& asked.expects(WorkerEventView::Queried(Some(data), now))
            &&& publication == WorkerActionView::Publish(command.action(), data)
            &&& acked.phase is Waiting
            &&& acked.started == (command is Start)
            &&& acked.zero_connection_since is None
        }),
{
}

/// Nothing is published while the ability is not started: between a stop and the next
/// command the ticks change nothing and nothing is queried.
pub proof fn lemma_silent_when_stopped(worker: AbilityAckWorker)
    requires
        worker.wf(),
        worker.phase is Waiting,
        !worker.started,
    ensures
        worker.next(WorkerEventView::Ticked) == (worker, WorkerActionView::Wait),
{
}

/// A poll is reported as it was read; at the end of the ability only the state is another.
pub proof fn lemma_poll_is_reported(worker: AbilityAckWorker, data: AccountDataView, now: u128)
    requires
        worker.phase is Polling,
    ensures
        ({
            let (after, publication) = worker.next(WorkerEventView::Queried(Some(data), now));
            &&& after.phase is Waiting
            &&& publication == WorkerActionView::Publish(AckAction::Start, data) || publication
                == WorkerActionView::Publish(AckAction::Stop, with_status(data, RdStatus::Stopped))
            &&& publication is Publish && publication->Publish_0 is Stop ==> !after.started
            &&& publication is Publish && publication->Publish_0 is Start ==> after.started
                == worker.started
        }),
{
}

/// A query that fails leaves the worker as it was before it asked, but for the command that
/// it could not acknowledge: a run without a connection goes on.
pub proof fn lemma_failed_query_changes_nothing(worker: AbilityAckWorker, now: u128)
    requires
        worker.phase is Polling || worker.phase is Acking,
    ensures
        worker.next(WorkerEventView::Queried(None, now)) == (
            AbilityAckWorker { phase: WorkerPhase::Waiting, ..worker },
            WorkerActionView::Wait,
        ),
{
}

/// Every acknowledgement carries the state that fits its action, "running" with a start and
/// "stopped" with a stop, and otherwise the account that was read for it: where a worker that
/// waits takes an event and asks for the account, and is answered in the state it asked for.
pub proof fn lemma_ack_state_fits_action(
    worker: AbilityAckWorker,
    event: WorkerEventView,
    data: AccountDataView,
    now: u128,
)
    requires
        worker.phase is Waiting,
        worker.expects(event),
        worker.next(event).1 matches WorkerActionView::Query(status) && data.rd_status
            == status.word(),
    ensures
        worker.next(event).0.next(WorkerEventView::Queried(Some(data), now)).1 matches
            WorkerActionView::Publish(action, report) && {
            &&& action is Start <==> report.rd_status == "running"@
            &&& action is Stop <==> report.rd_status == "stopped"@
            &&& report == (AccountDataView { rd_status: report.rd_status, ..data })
        },
{
    reveal_strlit("running");
    reveal_strlit("stopped");
    assert("running"@[0] != "stopped"@[0]);
}

/// The connections that a report shows are its number of them wherever that fits an `i64`, and
/// none where it does not.
pub proof fn lemma_connections_are_those_reported(data: AccountDataView)
    ensures
        0 <= data.user_num <= i64::MAX ==> current_users(data) == data.user_num,
        data.user_num > i64::MAX ==> current_users(data) == 0,
{
}

/// A poll that shows any connection at all is published as started, as it is; the ability stays
/// as it was, and whatever run without a connection was under way has ended.
pub proof fn lemma_connected_ability_stays(
    worker: AbilityAckWorker,
    data: AccountDataView,
    now: u128,
)
    requires
        worker.phase is Polling,
        1 <= data.user_num <= i64::MAX,
    ensures
        ({
            let (after, action) = worker.next(WorkerEventView::Queried(Some(data), now));
            &&& action == WorkerActionView::Publish(AckAction::Start, data)
            &&& after.started == worker.started
            &&& after.zero_connection_since is None
            &&& after.phase is Waiting
        }),
{
}

/// A poll that shows no connection is published as started, and the ability stays, until the
/// run of such polls has lasted a minute; then it is published as stopped, with no more than
/// the state of the report changed, and the ability is stopped.
pub proof fn lemma_unconnected_ability_stays_a_minute(
    worker: AbilityAckWorker,
    data: AccountDataView,
    now: u128,
)
    requires
        worker.phase is Polling,
        data.user_num == 0 || data.user_num > i64::MAX,
    ensures
        ({
            let (after, action) = worker.next(WorkerEventView::Queried(Some(data), now));
            let since = worker.zero_connection_since;
            &&& after.phase is Waiting
            &&& since is None ==> {
                &&& action == WorkerActionView::Publish(AckAction::Start, data)
                &&& after.started == worker.started
                &&& after.zero_connection_since == Some(now)
            }
            &&& since is Some && now - since->0 < 60_000_000_000 ==> {
                &&& action == WorkerActionView::Publish(AckAction::Start, data)
                &&& after.started == worker.started
                &&& after.zero_connection_since == since
            }
            &&& since is Some && now - since->0 >= 60_000_000_000 ==> {
                &&& action == WorkerActionView::Publish(
                    AckAction::Stop,
                    AccountDataView { rd_status: "stopped"@, ..data },
                )
                &&& !after.started
                &&& after.zero_connection_since is None
            }
        }),
{
}

/// A command starts or stops the ability, whatever it was, and asks for the account in the state
/// of that command; the account that answers is published under its word as it is.
pub proof fn lemma_command_is_obeyed(
    worker: AbilityAckWorker,
    data: AccountDataView,
    now: u128,
)
    requires
        worker.phase is Waiting,
    ensures
        ({
            let (started, query) = worker.next(
                WorkerEventView::Received(Some(AbilityAckEvent::Start)),
            );
            let (after, action) = started.next(WorkerEventView::Queried(Some(data), now));
            &&& query == WorkerActionView::Query(RdStatus::Running)
            &&& started.started && after.started
            &&& after.zero_connection_since is None
            &&& after.phase is Waiting
            &&& action == WorkerActionView::Publish(AckAction::Start, data)
        }),
        ({
            let (stopped, query) = worker.next(
                WorkerEventView::Received(Some(AbilityAckEvent::Stop)),
            );
            let (after, action) = stopped.next(WorkerEventView::Queried(Some(data), now));
            &&& query == WorkerActionView::Query(RdStatus::Stopped)
            &&& !stopped.started && !after.started
            &&& after.zero_connection_since is None
            &&& after.phase is Waiting
            &&& action == WorkerActionView::Publish(AckAction::Stop, data)
        }),
{
}

/// The models of events and actions tell the account that they carry apart in each of its parts.
pub proof fn lemma_models_carry_account(data: AccountData, now: u128, action: AckAction)
    ensures
        (WorkerEvent::Queried(Ok(data), now))@ == WorkerEventView::Queried(Some(data@), now),
        (WorkerAction::Publish(action, data))@ == WorkerActionView::Publish(action, data@),
        data@.rd_id == data.rd_id@,
        data@.rd_pwd == data.rd_pwd@,
        data@.sn_mac == data.sn_mac@,
        data@.rd_status == data.rd_status@,
        data@.ts == data.ts,
        data@.user_num == data.user_num,
{
}

}
