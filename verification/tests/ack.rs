use internal_api::account::{account, account_data, Account, AccountData, RdStatus};
use internal_api::ack::{ability_ack, ability_ack_body, ABILITY_ACK_PREFIX};
use internal_api::worker::AckAction;
use serde_json::Value;

fn sample(user_num: usize) -> Account {
    Account {
        rd_id: "host-1".to_string(),
        rd_pwd: "0123abcdef".to_string(),
        user_num,
    }
}

fn report(status: &str, user_num: usize) -> AccountData {
    match account_data(Ok(sample(user_num)), status, 5) {
        Ok(data) => data,
        Err(error) => panic!("no report: {error}"),
    }
}

#[test]
fn report_holds_the_account() {
    let data = report("running", 2);
    assert_eq!(data.rd_id, "host-1");
    assert_eq!(data.rd_pwd, "0123abcdef");
    assert_eq!(data.sn_mac, "");
    assert_eq!(data.rd_status, "running");
    assert_eq!(data.ts, 5);
    assert_eq!(data.user_num, 2);
}

#[test]
fn failed_query_gives_no_report() {
    match account_data(Err("no server".to_string()), "running", 5) {
        Ok(_) => panic!("a report without an account"),
        Err(error) => assert_eq!(error, "no server"),
    }
}

#[test]
fn report_as_json() {
    let value = report("stopped", 3).to_value();
    assert_eq!(value["rdID"], Value::from("host-1"));
    assert_eq!(value["rdPwd"], Value::from("0123abcdef"));
    assert_eq!(value["snMac"], Value::from(""));
    assert_eq!(value["rdStatus"], Value::from("stopped"));
    assert_eq!(value["ts"].as_i64(), Some(5));
    assert_eq!(value["userNum"].as_i64(), Some(3));
    assert_eq!(value.as_object().map(|members| members.len()), Some(6));
}

#[test]
fn numbers_beyond_i64_and_below_zero_are_kept() {
    let mut data = report("running", usize::MAX);
    data.ts = i64::MIN;
    let value = data.to_value();
    assert_eq!(value["userNum"].as_u64(), Some(usize::MAX as u64));
    assert_eq!(value["ts"].as_i64(), Some(i64::MIN));
}

#[test]
fn account_is_answered_as_running() {
    let value = account(Ok(sample(1)), 9);
    assert_eq!(
        value.to_string(),
        "{\"rdID\":\"host-1\",\"rdPwd\":\"0123abcdef\",\"rdStatus\":\"running\",\
         \"snMac\":\"\",\"ts\":9,\"userNum\":1}"
    );
}

#[test]
fn account_that_cannot_be_read_is_answered_with_the_error() {
    let value = account(Err("server \"x\" gone".to_string()), 9);
    assert_eq!(
        value.to_string(),
        "{\"error\":\"server \\\"x\\\" gone\",\"ok\":false}"
    );
    assert_eq!(value["ok"], Value::from(false));
}

#[test]
fn acknowledgement_as_it_is_published() {
    assert_eq!(
        ABILITY_ACK_PREFIX,
        "nc/v1/events/iothub_client/ability_ack/rustdesk/"
    );
    let context = (Some("b1".to_string()), Some("t1".to_string()));
    let publication = ability_ack(AckAction::Start, report("running", 2), context, 7);
    assert_eq!(
        publication.key,
        "nc/v1/events/iothub_client/ability_ack/rustdesk/start"
    );
    assert_eq!(
        publication.payload,
        "{\"data\":{\"bid\":\"b1\",\"result\":{\"rdID\":\"host-1\",\"rdPwd\":\"0123abcdef\",\
         \"rdStatus\":\"running\",\"snMac\":\"\",\"ts\":5,\"userNum\":2},\"tid\":\"t1\"},\"ts\":7}"
    );
}

#[test]
fn acknowledgement_without_a_context() {
    let publication = ability_ack(AckAction::Stop, report("stopped", 0), (None, None), 7);
    assert_eq!(
        publication.key,
        "nc/v1/events/iothub_client/ability_ack/rustdesk/stop"
    );
    let body: Value = serde_json::from_str(&publication.payload).unwrap();
    assert!(body["data"]["bid"].is_null());
    assert!(body["data"]["tid"].is_null());
    assert_eq!(body["data"]["result"]["rdStatus"], Value::from("stopped"));
    assert_eq!(body["ts"].as_i64(), Some(7));
}

#[test]
fn published_text_reads_back_as_the_body() {
    let bid = Some("b \"1\" \u{e9}\n".to_string());
    let body = ability_ack_body(bid.clone(), None, report("running", 1), -3);
    let publication = ability_ack(AckAction::Start, report("running", 1), (bid, None), -3);
    let read: Value = serde_json::from_str(&publication.payload).unwrap();
    assert_eq!(read, body);
}

#[test]
fn another_state_replaces_one_member() {
    let mut changed = report("running", 1).to_value();
    changed["rdStatus"] = Value::from("stopped");
    let mut data = report("running", 1);
    data.rd_status = RdStatus::Stopped.as_str().to_string();
    assert_eq!(data.to_value(), changed);
}
