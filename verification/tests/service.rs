use internal_api::service::{ServiceStep, ACK_CHANNEL_CAPACITY, LISTEN_PORT};

fn after(outcomes: &[bool]) -> ServiceStep {
    let mut step = ServiceStep::first();
    for outcome in outcomes {
        step = step.next(*outcome);
    }
    step
}

#[test]
fn where_and_how_much() {
    assert_eq!(LISTEN_PORT, 3000);
    assert_eq!(ACK_CHANNEL_CAPACITY, 16);
}

#[test]
fn service_comes_up_in_order() {
    assert!(after(&[]) == ServiceStep::OpenSession);
    assert!(after(&[true]) == ServiceStep::Subscribe);
    assert!(after(&[true, true]) == ServiceStep::OpenChannel);
    assert!(after(&[true, true, true]) == ServiceStep::Listen);
    assert!(after(&[true, true, true, true]) == ServiceStep::Serve);
    assert!(after(&[true, true, true, true, true]) == ServiceStep::Finished);
}

#[test]
fn failures_end_the_service() {
    assert!(after(&[false]) == ServiceStep::Finished);
    assert!(after(&[true, false]) == ServiceStep::Finished);
    assert!(after(&[true, true, true, false]) == ServiceStep::Finished);
    assert!(after(&[false, true, true, true]) == ServiceStep::Finished);
}

#[test]
fn channel_that_was_there_does_not_end_the_service() {
    assert!(after(&[true, true, false]) == ServiceStep::Listen);
    assert!(after(&[true, true, false, true]) == ServiceStep::Serve);
}
