//! The acknowledgements that are published.
use vstd::prelude::*;

use crate::account::AccountData;
use crate::ability::ABILITY_PREFIX;
use crate::ability::{action_of_key, context_after, ids_of};
use crate::account::{AccountDataView, RdStatus};
use crate::json::{insert_member, json_i64, json_null, json_object, json_string, no_members, text_of_json};
use crate::json::{Json, json_of, json_text};
use crate::text::optional_text;
use crate::worker::AckAction;
use crate::worker::with_status;

verus! {

/// Where acknowledgements are published, but for the action.
pub const ABILITY_ACK_PREFIX: &'static str = "nc/v1/events/iothub_client/ability_ack/rustdesk/";

/// A text that is ready to be published.
pub struct Publication {
    pub key: String,
    pub payload: String,
}

/// The JSON value of a text that may be missing.
pub open spec fn optional_text_json(text: Option<Seq<char>>) -> Json {
    match text {
        Some(text) => Json::Text(text),
        None => Json::Null,
    }
}

/// The object that acknowledges for the request `bid` and the task `tid` with this report.
pub open spec fn ack_json(
    bid: Option<Seq<char>>,
    tid: Option<Seq<char>>,
    result: AccountDataView,
    ts: i64,
) -> Json {
    Json::Object(
        map![
            "ts"@ => Json::Integer(ts as int),
            "data"@ => Json::Object(
                map![
                    "bid"@ => optional_text_json(bid),
                    "tid"@ => optional_text_json(tid),
                    "result"@ => result.json(),
                ],
            ),
        ],
    )
}

fn optional_text_value(text: Option<String>) -> (value: serde_json::Value)
    ensures
        json_of(value) == optional_text_json(optional_text(text)),
{
    match text {
        Some(text) => json_string(text),
        None => json_null(),
    }
}

/// The object that acknowledges for the request `bid` and the task `tid` with this report.
pub fn ability_ack_body(
    bid: Option<String>,
    tid: Option<String>,
    result: AccountData,
    ts: i64,
) -> (body: serde_json::Value)
    ensures
        json_of(body) == ack_json(optional_text(bid), optional_text(tid), result@, ts),
        json_of(body) == Json::Object(
            map![
                "ts"@ => Json::Integer(ts as int),
                "data"@ => Json::Object(
                    map![
                        "bid"@ => match bid {
                            Some(bid) => Json::Text(bid@),
                            None => Json::Null,
                        },
                        "tid"@ => match tid {
                            Some(tid) => Json::Text(tid@),
                            None => Json::Null,
                        },
                        "result"@ => Json::Object(
                            map![
                                "rdID"@ => Json::Text(result.rd_id@),
                                "rdPwd"@ => Json::Text(result.rd_pwd@),
                                "snMac"@ => Json::Text(result.sn_mac@),
                                "rdStatus"@ => Json::Text(result.rd_status@),
                                "ts"@ => Json::Integer(result.ts as int),
                                "userNum"@ => Json::Integer(result.user_num as int),
                            ],
                        ),
                    ],
                ),
            ],
        ),
{
    let mut data = no_members();
    let _ = insert_member(&mut data, "bid".to_owned(), optional_text_value(bid));
    let _ = insert_member(&mut data, "tid".to_owned(), optional_text_value(tid));
    let _ = insert_member(&mut data, "result".to_owned(), result.to_value());
    let mut body = no_members();
    let _ = insert_member(&mut body, "ts".to_owned(), json_i64(ts));
    let _ = insert_member(&mut body, "data".to_owned(), json_object(data));
    json_object(body)
}

/// The acknowledgement of an action as it is published at `ts`, for the request and the
/// task in `context`.
pub fn ability_ack(
    action: AckAction,
    result: AccountData,
    context: (Option<String>, Option<String>),
    ts: i64,
) -> (publication: Publication)
    ensures
        publication.key@ == ABILITY_ACK_PREFIX@ + action.word(),
        action is Start ==> publication.key@ == ABILITY_ACK_PREFIX@ + "start"@,
        action is Stop ==> publication.key@ == ABILITY_ACK_PREFIX@ + "stop"@,
        publication.payload@ == json_text(
            ack_json(optional_text(context.0), optional_text(context.1), result@, ts),
        ),
        publication.payload@ == json_text(
            Json::Object(
                map![
                    "ts"@ => Json::Integer(ts as int),
                    "data"@ => Json::Object(
                        map![
                            "bid"@ => match context.0 {
                                Some(bid) => Json::Text(bid@),
                                None => Json::Null,
                            },
                            "tid"@ => match context.1 {
                                Some(tid) => Json::Text(tid@),
                                None => Json::Null,
                            },
                            "result"@ => Json::Object(
                                map![
                                    "rdID"@ => Json::Text(result.rd_id@),
                                    "rdPwd"@ => Json::Text(result.rd_pwd@),
                                    "snMac"@ => Json::Text(result.sn_mac@),
                                    "rdStatus"@ => Json::Text(result.rd_status@),
                                    "ts"@ => Json::Integer(result.ts as int),
                                    "userNum"@ => Json::Integer(result.user_num as int),
                                ],
                            ),
                        ],
                    ),
                ],
            ),
        ),
{
    let key: String = ABILITY_ACK_PREFIX.to_owned().concat(action.as_str());
    let (bid, tid) = context;
    let body = ability_ack_body(bid, tid, result, ts);
    Publication { key, payload: text_of_json(&body) }
}

/// A report carries each of its parts under a name of its own, and nothing else.
pub proof fn lemma_report_members(data: AccountDataView)
    ensures
        data.json() is Object,
        data.json()->Object_0.dom() == set![
            "rdID"@,
            "rdPwd"@,
            "snMac"@,
            "rdStatus"@,
            "ts"@,
            "userNum"@,
        ],
        data.json()->Object_0["rdID"@] == Json::Text(data.rd_id),
        data.json()->Object_0["rdPwd"@] == Json::Text(data.rd_pwd),
        data.json()->Object_0["snMac"@] == Json::Text(data.sn_mac),
        data.json()->Object_0["rdStatus"@] == Json::Text(data.rd_status),
        data.json()->Object_0["ts"@] == Json::Integer(data.ts as int),
        data.json()->Object_0["userNum"@] == Json::Integer(data.user_num as int),
{
    reveal_strlit("rdID");
    reveal_strlit("rdPwd");
    reveal_strlit("snMac");
    reveal_strlit("rdStatus");
    reveal_strlit("ts");
    reveal_strlit("userNum");
    assert("rdPwd"@[0] != "snMac"@[0]);
    assert("rdID"@.len() == 4 && "rdPwd"@.len() == 5 && "snMac"@.len() == 5);
    assert("rdStatus"@.len() == 8 && "ts"@.len() == 2 && "userNum"@.len() == 7);
}

/// To report another state is to replace the member of that name, and no other.
pub proof fn lemma_status_is_one_member(data: AccountDataView, status: RdStatus)
    ensures
        with_status(data, status).json() == Json::Object(
            data.json()->Object_0.insert("rdStatus"@, Json::Text(status.word())),
        ),
{
    lemma_report_members(data);
    lemma_report_members(with_status(data, status));
    assert(with_status(data, status).json()->Object_0 =~= data.json()->Object_0.insert(
        "rdStatus"@,
        Json::Text(status.word()),
    ));
}

proof fn lemma_ack_names_differ()
    ensures
        "ts"@ != "data"@,
        "bid"@ != "tid"@,
        "bid"@ != "result"@,
        "tid"@ != "result"@,
{
    reveal_strlit("ts");
    reveal_strlit("data");
    reveal_strlit("bid");
    reveal_strlit("tid");
    reveal_strlit("result");
    assert("bid"@[0] != "tid"@[0]);
    assert("ts"@.len() == 2 && "data"@.len() == 4);
    assert("bid"@.len() == 3 && "tid"@.len() == 3 && "result"@.len() == 6);
}

/// An acknowledgement carries when it was made and, beside the report, the request and the
/// task of the last command that named both.
pub proof fn lemma_ack_members(
    context: Option<(Seq<char>, Seq<char>)>,
    bid: Seq<char>,
    tid: Seq<char>,
    result: AccountDataView,
    ts: i64,
)
    ensures
        ({
            let ids = ids_of(context_after(context, Some(bid), Some(tid)));
            let body = ack_json(ids.0, ids.1, result, ts)->Object_0;
            let data = body["data"@]->Object_0;
            &&& body.dom() == set!["ts"@, "data"@]
            &&& body["ts"@] == Json::Integer(ts as int)
            &&& body["data"@] is Object
            &&& data.dom() == set!["bid"@, "tid"@, "result"@]
            &&& data["bid"@] == Json::Text(bid)
            &&& data["tid"@] == Json::Text(tid)
            &&& data["result"@] == result.json()
        }),
{
    lemma_ack_names_differ();
    let body = ack_json(Some(bid), Some(tid), result, ts)->Object_0;
    assert(body.dom() == set!["ts"@, "data"@]);
    assert(body["data"@]->Object_0.dom() == set!["bid"@, "tid"@, "result"@]);
}

/// Before the first command that names both, the acknowledgement names neither.
pub proof fn lemma_ack_without_context(result: AccountDataView, ts: i64)
    ensures
        ({
            let ids = ids_of(None);
            let data = ack_json(ids.0, ids.1, result, ts)->Object_0["data"@]->Object_0;
            data["bid"@] is Null && data["tid"@] is Null
        }),
{
    lemma_ack_names_differ();
}

/// An acknowledgement is never taken for a command.
pub proof fn lemma_ack_is_no_command(action: Seq<char>)
    ensures
        action_of_key(ABILITY_ACK_PREFIX@ + action) is None,
{
    reveal_strlit("nc/v1/events/iothub_client/ability/rustdesk/");
    reveal_strlit("nc/v1/events/iothub_client/ability_ack/rustdesk/");
    let key = ABILITY_ACK_PREFIX@ + action;
    assert(key[34] == '_');
    assert(ABILITY_PREFIX@[34] == '/');
}

/// An acknowledgement carries the request and the task each as it is given, whether or not the
/// other is, null for one that is missing, and the whole report.
pub proof fn lemma_ack_carries_ids(
    bid: Option<Seq<char>>,
    tid: Option<Seq<char>>,
    result: AccountDataView,
    ts: i64,
)
    ensures
        ({
            let body = ack_json(bid, tid, result, ts)->Object_0;
            let data = body["data"@]->Object_0;
            &&& body["ts"@] == Json::Integer(ts as int)
            &&& bid matches Some(bid) ==> data["bid"@] == Json::Text(bid)
            &&& bid is None ==> data["bid"@] is Null
            &&& tid matches Some(tid) ==> data["tid"@] == Json::Text(tid)
            &&& tid is None ==> data["tid"@] is Null
            &&& data["result"@] == result.json()
        }),
{
    lemma_ack_names_differ();
}

}
