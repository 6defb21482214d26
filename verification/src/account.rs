//! What is reported of the account that the server answers under.
use vstd::prelude::*;

use crate::json::{insert_member, json_bool, json_i64, json_object, json_string, json_usize, no_members};
use crate::json::Json;
use crate::json::json_of;

verus! {

/// What the server says of itself: its identity, its password and its live connections.
pub struct Account {
    pub rd_id: String,
    pub rd_pwd: String,
    pub user_num: usize,
}

/// What is reported of an account.
pub struct AccountData {
    pub rd_id: String,
    pub rd_pwd: String,
    pub sn_mac: String,
    pub rd_status: String,
    pub ts: i64,
    pub user_num: usize,
}

/// The model of `AccountData`.
#[verifier::ext_equal]
pub struct AccountDataView {
    pub rd_id: Seq<char>,
    pub rd_pwd: Seq<char>,
    pub sn_mac: Seq<char>,
    pub rd_status: Seq<char>,
    pub ts: i64,
    pub user_num: usize,
}

impl AccountDataView {
    /// The object that carries this report.
    pub open spec fn json(self) -> Json {
        Json::Object(
            map![
                "rdID"@ => Json::Text(self.rd_id),
                "rdPwd"@ => Json::Text(self.rd_pwd),
                "snMac"@ => Json::Text(self.sn_mac),
                "rdStatus"@ => Json::Text(self.rd_status),
                "ts"@ => Json::Integer(self.ts as int),
                "userNum"@ => Json::Integer(self.user_num as int),
            ],
        )
    }
}

impl View for AccountData {
    type V = AccountDataView;

    open spec fn view(&self) -> AccountDataView {
        AccountDataView {
            rd_id: self.rd_id@,
            rd_pwd: self.rd_pwd@,
            sn_mac: self.sn_mac@,
            rd_status: self.rd_status@,
            ts: self.ts,
            user_num: self.user_num,
        }
    }
}

/// The states that an account is reported in.
#[derive(Clone, Copy, PartialEq, Eq, Structural)]
pub enum RdStatus {
    Running,
    Stopped,
}

impl RdStatus {
    /// The word for this state.
    pub open spec fn word(self) -> Seq<char> {
        match self {
            RdStatus::Running => "running"@,
            RdStatus::Stopped => "stopped"@,
        }
    }

    pub fn as_str(self) -> (word: &'static str)
        ensures
            word@ == self.word(),
            self is Running ==> word@ == "running"@,
            self is Stopped ==> word@ == "stopped"@,
    {
        match self {
            RdStatus::Running => "running",
            RdStatus::Stopped => "stopped",
        }
    }
}

/// The report on an account in this state, made at `ts`.
pub open spec fn report_on(account: Account, status: Seq<char>, ts: i64) -> AccountDataView {
    AccountDataView {
        rd_id: account.rd_id@,
        rd_pwd: account.rd_pwd@,
        sn_mac: Seq::empty(),
        rd_status: status,
        ts,
        user_num: account.user_num,
    }
}

/// The object that answers a query of the account that failed.
pub open spec fn failure_json(error: Seq<char>) -> Json {
    Json::Object(map!["ok"@ => Json::Bool(false), "error"@ => Json::Text(error)])
}

/// Reports on the account that was read, or passes on why it could not be read.
pub fn account_data(reply: Result<Account, String>, status: &str, ts: i64) -> (data: Result<
    AccountData,
    String,
>)
    ensures
        match reply {
            Ok(account) => data is Ok && data->Ok_0@ == report_on(account, status@, ts),
            Err(error) => data == Err::<AccountData, String>(error),
        },
        reply matches Ok(account) ==> {
            &&& data is Ok
            &&& data->Ok_0.rd_id@ == account.rd_id@
            &&& data->Ok_0.rd_pwd@ == account.rd_pwd@
            &&& data->Ok_0.sn_mac@.len() == 0
            &&& data->Ok_0.rd_status@ == status@
            &&& data->Ok_0.ts == ts
            &&& data->Ok_0.user_num == account.user_num
        },
{
    match reply {
        Ok(account) => Ok(
            AccountData {
                rd_id: account.rd_id,
                rd_pwd: account.rd_pwd,
                sn_mac: String::new(),
                rd_status: status.to_owned(),
                ts,
                user_num: account.user_num,
            },
        ),
        Err(error) => Err(error),
    }
}

impl AccountData {
    /// The object that carries this report.
    pub fn to_value(self) -> (value: serde_json::Value)
        ensures
            json_of(value) == self@.json(),
            json_of(value) == Json::Object(
                map![
                    "rdID"@ => Json::Text(self.rd_id@),
                    "rdPwd"@ => Json::Text(self.rd_pwd@),
                    "snMac"@ => Json::Text(self.sn_mac@),
                    "rdStatus"@ => Json::Text(self.rd_status@),
                    "ts"@ => Json::Integer(self.ts as int),
                    "userNum"@ => Json::Integer(self.user_num as int),
                ],
            ),
    {
        let mut members = no_members();
        let _ = insert_member(&mut members, "rdID".to_owned(), json_string(self.rd_id));
        let _ = insert_member(&mut members, "rdPwd".to_owned(), json_string(self.rd_pwd));
        let _ = insert_member(&mut members, "snMac".to_owned(), json_string(self.sn_mac));
        let _ = insert_member(&mut members, "rdStatus".to_owned(), json_string(self.rd_status));
        let _ = insert_member(&mut members, "ts".to_owned(), json_i64(self.ts));
        let _ = insert_member(&mut members, "userNum".to_owned(), json_usize(self.user_num));
        json_object(members)
    }
}

/// Answers a query of the account: with the report on a running server, or with why there
/// is none.
pub fn account(reply: Result<Account, String>, ts: i64) -> (answer: serde_json::Value)
    ensures
        json_of(answer) == match reply {
            Ok(account) => report_on(account, RdStatus::Running.word(), ts).json(),
            Err(error) => failure_json(error@),
        },
        json_of(answer) == match reply {
            Ok(account) => Json::Object(
                map![
                    "rdID"@ => Json::Text(account.rd_id@),
                    "rdPwd"@ => Json::Text(account.rd_pwd@),
                    "snMac"@ => Json::Text(Seq::empty()),
                    "rdStatus"@ => Json::Text("running"@),
                    "ts"@ => Json::Integer(ts as int),
                    "userNum"@ => Json::Integer(account.user_num as int),
                ],
            ),
            Err(error) => Json::Object(
                map!["ok"@ => Json::Bool(false), "error"@ => Json::Text(error@)],
            ),
        },
{
    match account_data(reply, RdStatus::Running.as_str(), ts) {
        Ok(data) => data.to_value(),
        Err(error) => {
            let mut members = no_members();
            let _ = insert_member(&mut members, "ok".to_owned(), json_bool(false));
            let _ = insert_member(&mut members, "error".to_owned(), json_string(error));
            json_object(members)
        },
    }
}

/// The report on an account carries the account's own identity, password and number of
/// connections as they are, beside the given state and time, and an empty hardware address.
pub proof fn lemma_report_carries_account(account: Account, status: Seq<char>, ts: i64)
    ensures
        report_on(account, status, ts).rd_id == account.rd_id@,
        report_on(account, status, ts).rd_pwd == account.rd_pwd@,
        report_on(account, status, ts).user_num == account.user_num,
        report_on(account, status, ts).rd_status == status,
        report_on(account, status, ts).ts == ts,
        report_on(account, status, ts).sn_mac.len() == 0,
{
}

/// The model of a report has each of its parts as it is.
pub proof fn lemma_report_view(data: AccountData)
    ensures
        data@.rd_id == data.rd_id@,
        data@.rd_pwd == data.rd_pwd@,
        data@.sn_mac == data.sn_mac@,
        data@.rd_status == data.rd_status@,
        data@.ts == data.ts,
        data@.user_num == data.user_num,
{
}

/// Reports tell the accounts apart: those that differ in identity, password or number of
/// connections are never reported alike.
pub proof fn lemma_reports_tell_accounts_apart(
    one: Account,
    other: Account,
    status: Seq<char>,
    ts: i64,
)
    requires
        report_on(one, status, ts) == report_on(other, status, ts),
    ensures
        one.rd_id@ == other.rd_id@,
        one.rd_pwd@ == other.rd_pwd@,
        one.user_num == other.user_num,
{
}

/// The answer to a query that failed says so, gives the whole error, and nothing else.
pub proof fn lemma_failure_members(error: Seq<char>)
    ensures
        failure_json(error) is Object,
        failure_json(error)->Object_0.dom() == set!["ok"@, "error"@],
        failure_json(error)->Object_0["ok"@] == Json::Bool(false),
        failure_json(error)->Object_0["error"@] == Json::Text(error),
{
    reveal_strlit("ok");
    reveal_strlit("error");
    assert("ok"@.len() == 2 && "error"@.len() == 5);
    assert(failure_json(error)->Object_0.dom() == set!["ok"@, "error"@]);
}

}
