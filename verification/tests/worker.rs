use internal_api::account::{AccountData, RdStatus};
use internal_api::worker::{
    AbilityAckEvent, AbilityAckWorker, AckAction, WorkerAction, WorkerEvent, WorkerPhase,
    ALIVE_CONN_POLL_INTERVAL_SECS, ZERO_CONNECTION_DISABLE_NANOS, ZERO_CONNECTION_DISABLE_SECS,
};

const SECOND: u128 = 1_000_000_000;

fn data(user_num: usize) -> AccountData {
    AccountData {
        rd_id: "host-1".to_string(),
        rd_pwd: "0123abcdef".to_string(),
        sn_mac: String::new(),
        rd_status: "running".to_string(),
        ts: 5,
        user_num,
    }
}

fn take(worker: &mut AbilityAckWorker, event: WorkerEvent) -> WorkerAction {
    assert!(worker.is_waiting_for(&event));
    worker.step(event)
}

/// Sends a command and answers the query that follows.
fn command(worker: &mut AbilityAckWorker, event: AbilityAckEvent) -> WorkerAction {
    let action = take(worker, WorkerEvent::Received(Some(event)));
    assert!(matches!(action, WorkerAction::Query(_)));
    take(worker, WorkerEvent::Queried(Ok(data(0)), 0))
}

/// Lets the interval pass and answers the poll that follows.
fn poll(worker: &mut AbilityAckWorker, user_num: usize, now: u128) -> (AckAction, AccountData) {
    let action = take(worker, WorkerEvent::Ticked);
    assert!(matches!(action, WorkerAction::Query(RdStatus::Running)));
    match take(worker, WorkerEvent::Queried(Ok(data(user_num)), now)) {
        WorkerAction::Publish(action, data) => (action, data),
        _ => panic!("a poll was not reported"),
    }
}

#[test]
fn spans_agree() {
    assert_eq!(ZERO_CONNECTION_DISABLE_SECS, 60);
    assert_eq!(ALIVE_CONN_POLL_INTERVAL_SECS, 10);
    assert_eq!(
        ZERO_CONNECTION_DISABLE_NANOS,
        u128::from(ZERO_CONNECTION_DISABLE_SECS) * SECOND
    );
}

#[test]
fn new_worker_waits_and_is_silent() {
    let mut worker = AbilityAckWorker::new();
    assert!(!worker.started);
    assert!(worker.zero_connection_since.is_none());
    assert!(!worker.is_waiting_for(&WorkerEvent::Queried(Ok(data(0)), 0)));
    let action = take(&mut worker, WorkerEvent::Ticked);
    assert!(matches!(action, WorkerAction::Wait));
    assert!(matches!(worker.phase, WorkerPhase::Waiting));
}

#[test]
fn start_is_acknowledged() {
    let mut worker = AbilityAckWorker::new();
    let action = take(&mut worker, WorkerEvent::Received(Some(AbilityAckEvent::Start)));
    assert!(matches!(action, WorkerAction::Query(RdStatus::Running)));
    assert!(!worker.is_waiting_for(&WorkerEvent::Ticked));
    match take(&mut worker, WorkerEvent::Queried(Ok(data(4)), 1)) {
        WorkerAction::Publish(AckAction::Start, report) => {
            assert_eq!(report.rd_status, "running");
            assert_eq!(report.user_num, 4);
        }
        _ => panic!("start was not acknowledged"),
    }
    assert!(worker.started);
}

#[test]
fn stop_is_acknowledged_and_ends_the_polls() {
    let mut worker = AbilityAckWorker::new();
    command(&mut worker, AbilityAckEvent::Start);
    let action = take(&mut worker, WorkerEvent::Received(Some(AbilityAckEvent::Stop)));
    assert!(matches!(action, WorkerAction::Query(RdStatus::Stopped)));
    let action = take(&mut worker, WorkerEvent::Queried(Ok(data(0)), 1));
    assert!(matches!(action, WorkerAction::Publish(AckAction::Stop, _)));
    assert!(!worker.started);
    let action = take(&mut worker, WorkerEvent::Ticked);
    assert!(matches!(action, WorkerAction::Wait));
}

#[test]
fn command_that_cannot_be_acknowledged_still_counts() {
    let mut worker = AbilityAckWorker::new();
    take(&mut worker, WorkerEvent::Received(Some(AbilityAckEvent::Start)));
    let action = take(&mut worker, WorkerEvent::Queried(Err("gone".to_string()), 1));
    assert!(matches!(action, WorkerAction::Wait));
    assert!(worker.started);
    let action = take(&mut worker, WorkerEvent::Ticked);
    assert!(matches!(action, WorkerAction::Query(RdStatus::Running)));
}

#[test]
fn idle_ability_is_stopped_after_a_minute() {
    let mut worker = AbilityAckWorker::new();
    command(&mut worker, AbilityAckEvent::Start);
    for tick in 0..6u128 {
        let (action, report) = poll(&mut worker, 0, (100 + 10 * tick) * SECOND);
        assert!(matches!(action, AckAction::Start));
        assert_eq!(report.rd_status, "running");
        assert_eq!(worker.zero_connection_since, Some(100 * SECOND));
    }
    let (action, report) = poll(&mut worker, 0, 160 * SECOND);
    assert!(matches!(action, AckAction::Stop));
    assert_eq!(report.rd_status, "stopped");
    assert_eq!(report.rd_id, "host-1");
    assert_eq!(report.ts, 5);
    assert!(!worker.started);
    assert!(worker.zero_connection_since.is_none());
    assert!(matches!(take(&mut worker, WorkerEvent::Ticked), WorkerAction::Wait));
}

#[test]
fn a_minute_less_a_nanosecond_is_too_short() {
    let mut worker = AbilityAckWorker::new();
    command(&mut worker, AbilityAckEvent::Start);
    poll(&mut worker, 0, 7);
    let (action, _) = poll(&mut worker, 0, 7 + 60 * SECOND - 1);
    assert!(matches!(action, AckAction::Start));
    assert!(worker.started);
    let (action, _) = poll(&mut worker, 0, 7 + 60 * SECOND);
    assert!(matches!(action, AckAction::Stop));
}

#[test]
fn a_connection_begins_the_minute_anew() {
    let mut worker = AbilityAckWorker::new();
    command(&mut worker, AbilityAckEvent::Start);
    poll(&mut worker, 0, 0);
    let (action, report) = poll(&mut worker, 1, 50 * SECOND);
    assert!(matches!(action, AckAction::Start));
    assert_eq!(report.user_num, 1);
    assert!(worker.zero_connection_since.is_none());
    let (action, _) = poll(&mut worker, 0, 100 * SECOND);
    assert!(matches!(action, AckAction::Start));
    let (action, _) = poll(&mut worker, 0, 160 * SECOND);
    assert!(matches!(action, AckAction::Stop));
}

#[test]
fn a_command_begins_the_minute_anew() {
    let mut worker = AbilityAckWorker::new();
    command(&mut worker, AbilityAckEvent::Start);
    poll(&mut worker, 0, 0);
    command(&mut worker, AbilityAckEvent::Start);
    let (action, _) = poll(&mut worker, 0, 90 * SECOND);
    assert!(matches!(action, AckAction::Start));
    assert_eq!(worker.zero_connection_since, Some(90 * SECOND));
}

#[test]
fn a_failed_poll_does_not_end_the_run() {
    let mut worker = AbilityAckWorker::new();
    command(&mut worker, AbilityAckEvent::Start);
    poll(&mut worker, 0, 0);
    take(&mut worker, WorkerEvent::Ticked);
    let action = take(&mut worker, WorkerEvent::Queried(Err("gone".to_string()), 30 * SECOND));
    assert!(matches!(action, WorkerAction::Wait));
    assert_eq!(worker.zero_connection_since, Some(0));
    let (action, _) = poll(&mut worker, 0, 60 * SECOND);
    assert!(matches!(action, AckAction::Stop));
}

#[test]
fn count_beyond_i64_reads_as_none() {
    let mut worker = AbilityAckWorker::new();
    command(&mut worker, AbilityAckEvent::Start);
    poll(&mut worker, i64::MAX as usize, 0);
    assert!(worker.zero_connection_since.is_none());
    poll(&mut worker, i64::MAX as usize + 1, 1);
    assert_eq!(worker.zero_connection_since, Some(1));
}

#[test]
fn clock_that_goes_back_does_not_stop_the_ability() {
    let mut worker = AbilityAckWorker::new();
    command(&mut worker, AbilityAckEvent::Start);
    poll(&mut worker, 0, 100 * SECOND);
    let (action, _) = poll(&mut worker, 0, 10 * SECOND);
    assert!(matches!(action, AckAction::Start));
    assert_eq!(worker.zero_connection_since, Some(100 * SECOND));
}

#[test]
fn closed_channel_ends_the_worker() {
    let mut worker = AbilityAckWorker::new();
    let action = take(&mut worker, WorkerEvent::Received(None));
    assert!(matches!(action, WorkerAction::Finish));
    assert!(matches!(worker.phase, WorkerPhase::Finished));
    assert!(!worker.is_waiting_for(&WorkerEvent::Ticked));
}

#[test]
fn state_fits_the_acknowledgement() {
    for event in [AbilityAckEvent::Start, AbilityAckEvent::Stop] {
        let mut worker = AbilityAckWorker::new();
        let status = match take(&mut worker, WorkerEvent::Received(Some(event))) {
            WorkerAction::Query(status) => status,
            _ => panic!("the account was not asked for"),
        };
        let mut answer = data(2);
        answer.rd_status = status.as_str().to_string();
        match take(&mut worker, WorkerEvent::Queried(Ok(answer), 1)) {
            WorkerAction::Publish(AckAction::Start, report) => {
                assert_eq!(report.rd_status, "running");
                assert!(event == AbilityAckEvent::Start);
            }
            WorkerAction::Publish(AckAction::Stop, report) => {
                assert_eq!(report.rd_status, "stopped");
                assert!(event == AbilityAckEvent::Stop);
            }
            _ => panic!("the command was not acknowledged"),
        }
    }
}
