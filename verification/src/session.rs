//! How the zenoh session is configured, and what can go wrong with it.
use vstd::prelude::*;

use crate::text::split;
use crate::text::{hex_digit, is_white_space, joined, optional_text, pieces, texts, trimmed};
use crate::text::{lemma_pieces, lemma_single_piece, lemma_trimmed, lemma_trimmed_already};
use crate::text::{lemma_pieces_of_concatenation, lemma_trimmed_is_what_is_inside};

verus! {

/// Where the session connects to unless it is told otherwise.
pub const DEFAULT_ZENOH_CONNECT: &'static str = "tcp/192.168.217.100:37447";

/// How long, in seconds, the session may take to open.
pub const OPEN_TIMEOUT_SECS: u64 = 5;

/// Declares `zenoh::Config`, a session's configuration, as opaque.
#[verifier::external_type_specification]
#[verifier::external_body]
pub struct ExConfig(zenoh::Config);

/// Declares `serde_json::Error`, why a JSON text could not be made, as opaque.
#[verifier::external_type_specification]
#[verifier::external_body]
pub struct ExJsonError(serde_json::Error);

/// What `zenoh::Config::insert_json5` makes of a configuration, given a key and a JSON5
/// text, and whether it accepts them.
pub uninterp spec fn json5_inserted(config: zenoh::Config, key: Seq<char>, json5: Seq<char>) -> (zenoh::Config, bool);

/// The JSON5 texts that the session's settings have: a word, a truth value or a list of
/// texts.
pub open spec fn is_setting_text(json5: Seq<char>) -> bool {
    ||| json5 == "\"client\""@
    ||| json5 == "false"@
    ||| exists|items: Seq<Seq<char>>| json5 == #[trigger] json_array_text(items)
}

/// The keys of the session's settings.
pub open spec fn is_setting_key(key: Seq<char>) -> bool {
    ||| key == "mode"@
    ||| key == "scouting/multicast/enabled"@
    ||| key == "connect/endpoints"@
}

/// Calls `zenoh::Config::insert_json5`, for the keys `mode`, `scouting/multicast/enabled` and
/// `connect/endpoints` alone: under some other keys, such as those below `plugins`, the call
/// can panic. What it makes of the configuration and whether it
/// accepts the setting rest on the configuration, the key and the text alone; what they are
/// is not said.
#[verifier::external_body]
fn insert_json5(config: &mut zenoh::Config, key: &str, json5: &str) -> (accepted: bool)
    requires
        is_setting_key(key@),
        is_setting_text(json5@),
    ensures
        (*final(config), accepted) == json5_inserted(*old(config), key@, json5@),
{
    config.insert_json5(key, json5).is_ok()
}

/// How a character is written inside a JSON string.
pub open spec fn json_character(c: char) -> Seq<char> {
    let code = c as int;
    if c == '"' || c == '\\' {
        seq!['\\', c]
    } else if code == 0x8 {
        seq!['\\', 'b']
    } else if code == 0x9 {
        seq!['\\', 't']
    } else if code == 0xa {
        seq!['\\', 'n']
    } else if code == 0xc {
        seq!['\\', 'f']
    } else if code == 0xd {
        seq!['\\', 'r']
    } else if code < 0x20 {
        seq!['\\', 'u', '0', '0', hex_digit(code / 16), hex_digit(code % 16)]
    } else {
        seq![c]
    }
}

/// How a text is written as a JSON string.
pub open spec fn json_string_text(text: Seq<char>) -> Seq<char> {
    seq!['"'] + text.map_values(|c: char| json_character(c)).flatten() + seq!['"']
}

/// How texts are written as a compact JSON array.
pub open spec fn json_array_text(items: Seq<Seq<char>>) -> Seq<char> {
    seq!['['] + joined(items.map_values(|item: Seq<char>| json_string_text(item)), ',') + seq![']']
}

/// Calls `serde_json::to_string` on a list of strings, which never fails: the compact JSON
/// array of them.
#[verifier::external_body]
fn json_array(items: &Vec<String>) -> (text: Result<String, serde_json::Error>)
    ensures
        text is Ok,
        text->Ok_0@ == json_array_text(texts(items@)),
{
    serde_json::to_string(items)
}

/// The endpoints as the setting that the configuration takes.
pub fn endpoints_json(endpoints: &Vec<String>) -> (json: Result<String, serde_json::Error>)
    ensures
        json is Ok,
        json->Ok_0@ == json_array_text(texts(endpoints@)),
{
    json_array(endpoints)
}

/// The endpoints that the session connects to, as a comma-separated list: what was set,
/// unless that is missing or empty.
pub open spec fn connect_list(setting: Option<Seq<char>>) -> Seq<char> {
    match setting {
        Some(list) if list.len() > 0 => list,
        _ => DEFAULT_ZENOH_CONNECT@,
    }
}

/// The endpoints in a comma-separated list: its pieces without the white space around them,
/// but for those that are then empty.
pub open spec fn endpoints_in(list: Seq<char>) -> Seq<Seq<char>> {
    pieces(list, ',').map_values(|piece: Seq<char>| trimmed(piece)).filter(
        |endpoint: Seq<char>| endpoint.len() > 0,
    )
}

/// The endpoints that the session connects to.
pub fn zenoh_endpoints(setting: Option<String>) -> (endpoints: Vec<String>)
    ensures
        texts(endpoints@) == endpoints_in(connect_list(optional_text(setting))),
        setting is Some && setting->0@.len() > 0 ==> texts(endpoints@) == endpoints_in(
            setting->0@,
        ),
        setting is None || setting->0@.len() == 0 ==> texts(endpoints@) == seq![
            DEFAULT_ZENOH_CONNECT@,
        ],
{
    proof {
        lemma_default_endpoint();
    }
    let list: String = match setting {
        Some(list) => if list.as_str().is_empty() {
            DEFAULT_ZENOH_CONNECT.to_owned()
        } else {
            list
        },
        None => DEFAULT_ZENOH_CONNECT.to_owned(),
    };
    let found: Vec<String> = split(list.as_str(), ',');
    let ghost candidates = pieces(list@, ',').map_values(|piece: Seq<char>| trimmed(piece));
    let ghost kept = |endpoint: Seq<char>| endpoint.len() > 0;
    assert(candidates.len() == found@.len());
    let mut endpoints: Vec<String> = Vec::new();
    proof {
        reveal(Seq::filter);
    }
    assert(texts(endpoints@) == candidates.take(0).filter(kept));
    for i in 0..found.len()
        invariant
            texts(found@) == pieces(list@, ','),
            candidates == pieces(list@, ',').map_values(|piece: Seq<char>| trimmed(piece)),
            candidates.len() == found@.len(),
            kept == (|endpoint: Seq<char>| endpoint.len() > 0),
            texts(endpoints@) == candidates.take(i as int).filter(kept),
    {
        let endpoint: &str = found[i].as_str().trim();
        assert(texts(found@)[i as int] == found@[i as int]@);
        assert(candidates[i as int] == endpoint@);
        assert(candidates.take(i + 1).drop_last() == candidates.take(i as int));
        proof {
            reveal(Seq::filter);
        }
        if !endpoint.is_empty() {
            endpoints.push(endpoint.to_owned());
        }
        assert(texts(endpoints@) == candidates.take(i + 1).filter(kept));
    }
    assert(candidates.take(candidates.len() as int) == candidates);
    endpoints
}

/// A configuration with the session's settings: a client that does no multicast scouting
/// and connects to these endpoints.
pub open spec fn configured(config: zenoh::Config, endpoints: Seq<Seq<char>>) -> (
    zenoh::Config,
    bool,
) {
    let as_client = json5_inserted(config, "mode"@, "\"client\""@).0;
    let without_scouting = json5_inserted(as_client, "scouting/multicast/enabled"@, "false"@).0;
    json5_inserted(without_scouting, "connect/endpoints"@, json_array_text(endpoints))
}

/// Gives a configuration the session's settings; says also whether the endpoints were
/// accepted.
pub fn configure_zenoh(config: zenoh::Config, setting: Option<String>) -> (built: (
    zenoh::Config,
    bool,
))
    ensures
        built == configured(config, endpoints_in(connect_list(optional_text(setting)))),
        built == json5_inserted(
            json5_inserted(
                json5_inserted(config, "mode"@, "\"client\""@).0,
                "scouting/multicast/enabled"@,
                "false"@,
            ).0,
            "connect/endpoints"@,
            json_array_text(
                if setting is Some && setting->0@.len() > 0 {
                    endpoints_in(setting->0@)
                } else {
                    seq![DEFAULT_ZENOH_CONNECT@]
                },
            ),
        ),
{
    proof {
        lemma_default_endpoint();
    }
    let mut config = config;
    let _ = insert_json5(&mut config, "mode", "\"client\"");
    let _ = insert_json5(&mut config, "scouting/multicast/enabled", "false");
    let endpoints: Vec<String> = zenoh_endpoints(setting);
    let mut accepted: bool = true;
    if let Ok(json) = endpoints_json(&endpoints) {
        accepted = insert_json5(&mut config, "connect/endpoints", json.as_str());
    }
    (config, accepted)
}

/// Calls `default` of `zenoh::Config`. What it gives rests in part on the machine, such as how
/// many processors it has, so nothing is said of it.
#[verifier::external_body]
fn default_config() -> (config: zenoh::Config) {
    zenoh::Config::default()
}

/// zenoh's default configuration with the session's settings; says also whether the endpoints
/// were accepted.
pub fn build_zenoh_config(setting: Option<String>) -> (built: (zenoh::Config, bool))
    ensures
        exists|default: zenoh::Config| built == #[trigger] configured(
            default,
            endpoints_in(connect_list(optional_text(setting))),
        ),
{
    configure_zenoh(default_config(), setting)
}

/// How an attempt to have a session ends.
pub enum SessionAttempt {
    /// There was a session already.
    Present,
    /// The session did not open in time.
    TimedOut,
    /// The session did not open, for this reason.
    Failed(String),
    /// The session opened and was kept.
    Kept,
    /// The session opened, but another had been kept meanwhile.
    Late,
}

/// What can go wrong with the session.
pub enum SessionError {
    OpenTimeout,
    Open(String),
    AlreadyInitialized,
    NotInitialized,
    /// The key that was published to, and the reason.
    Publish(String, String),
    DeclareSubscriber(String),
}

impl SessionError {
    /// The text of this error.
    pub open spec fn text(self) -> Seq<char> {
        match self {
            SessionError::OpenTimeout => "open zenoh session timeout (5s)"@,
            SessionError::Open(reason) => "open zenoh session: "@ + reason@,
            SessionError::AlreadyInitialized => "zenoh session already initialized"@,
            SessionError::NotInitialized => "zenoh session not initialized"@,
            SessionError::Publish(key, reason) => "publish "@ + key@ + ": "@ + reason@,
            SessionError::DeclareSubscriber(reason) => "declare ability subscriber: "@ + reason@,
        }
    }

    /// The text of this error.
    pub fn message(&self) -> (message: String)
        ensures
            message@ == self.text(),
            message@ == match self {
                SessionError::OpenTimeout => "open zenoh session timeout (5s)"@,
                SessionError::Open(reason) => "open zenoh session: "@ + reason@,
                SessionError::AlreadyInitialized => "zenoh session already initialized"@,
                SessionError::NotInitialized => "zenoh session not initialized"@,
                SessionError::Publish(key, reason) => "publish "@ + key@ + ": "@ + reason@,
                SessionError::DeclareSubscriber(reason) => "declare ability subscriber: "@
                    + reason@,
            },
    {
        match self {
            SessionError::OpenTimeout => "open zenoh session timeout (5s)".to_owned(),
            SessionError::Open(reason) => "open zenoh session: ".to_owned().concat(reason.as_str()),
            SessionError::AlreadyInitialized => "zenoh session already initialized".to_owned(),
            SessionError::NotInitialized => "zenoh session not initialized".to_owned(),
            SessionError::Publish(key, reason) => "publish ".to_owned().concat(
                key.as_str(),
            ).concat(": ").concat(reason.as_str()),
            SessionError::DeclareSubscriber(
                reason,
            ) => "declare ability subscriber: ".to_owned().concat(reason.as_str()),
        }
    }
}

/// Whether there is a session after an attempt to have one.
pub fn init_zenoh(attempt: SessionAttempt) -> (ready: Result<(), SessionError>)
    ensures
        ready == match attempt {
            SessionAttempt::Present | SessionAttempt::Kept => Ok::<(), SessionError>(()),
            SessionAttempt::TimedOut => Err(SessionError::OpenTimeout),
            SessionAttempt::Failed(reason) => Err(SessionError::Open(reason)),
            SessionAttempt::Late => Err(SessionError::AlreadyInitialized),
        },
{
    match attempt {
        SessionAttempt::Present | SessionAttempt::Kept => Ok(()),
        SessionAttempt::TimedOut => Err(SessionError::OpenTimeout),
        SessionAttempt::Failed(reason) => Err(SessionError::Open(reason)),
        SessionAttempt::Late => Err(SessionError::AlreadyInitialized),
    }
}

proof fn lemma_filtered(items: Seq<Seq<char>>, kept: spec_fn(Seq<char>) -> bool, at: int)
    requires
        0 <= at < items.filter(kept).len(),
    ensures
        kept(items.filter(kept)[at]),
        items.contains(items.filter(kept)[at]),
    decreases items.len(),
{
    reveal(Seq::filter);
    let front = items.drop_last();
    let item = items.filter(kept)[at];
    if at < front.filter(kept).len() {
        lemma_filtered(front, kept, at);
        let i = choose|i: int| 0 <= i < front.len() && front[i] == item;
        assert(items[i] == item);
    } else {
        assert(items[items.len() - 1] == item);
    }
}

/// Every endpoint has something in it, begins and ends with something that is no white
/// space, and holds no comma.
pub proof fn lemma_endpoints_are_clean(list: Seq<char>, at: int)
    requires
        0 <= at < endpoints_in(list).len(),
    ensures
        endpoints_in(list)[at].len() > 0,
        !is_white_space(endpoints_in(list)[at].first()),
        !is_white_space(endpoints_in(list)[at].last()),
        !endpoints_in(list)[at].contains(','),
{
    let found = pieces(list, ',');
    let candidates = found.map_values(|piece: Seq<char>| trimmed(piece));
    let kept = |endpoint: Seq<char>| endpoint.len() > 0;
    let endpoint = endpoints_in(list)[at];
    lemma_filtered(candidates, kept, at);
    let i = choose|i: int| 0 <= i < candidates.len() && candidates[i] == endpoint;
    lemma_pieces(list, ',');
    lemma_trimmed(found[i]);
}

/// A list that is missing or empty stands for the default endpoint alone.
pub proof fn lemma_default_endpoint()
    ensures
        endpoints_in(connect_list(None)) == seq![DEFAULT_ZENOH_CONNECT@],
        endpoints_in(connect_list(Some(Seq::empty()))) == seq![DEFAULT_ZENOH_CONNECT@],
{
    reveal_strlit("tcp/192.168.217.100:37447");
    lemma_single_endpoint(DEFAULT_ZENOH_CONNECT@);
}

/// An endpoint that needs no cleaning is the only one of the list that it makes.
pub proof fn lemma_single_endpoint(endpoint: Seq<char>)
    requires
        endpoint.len() > 0,
        !is_white_space(endpoint.first()),
        !is_white_space(endpoint.last()),
        !endpoint.contains(','),
    ensures
        endpoints_in(endpoint) == seq![endpoint],
{
    lemma_single_piece(endpoint, ',');
    lemma_trimmed_already(endpoint);
    let candidates = pieces(endpoint, ',').map_values(|piece: Seq<char>| trimmed(piece));
    assert(candidates == seq![endpoint]);
    assert(candidates.drop_last() == Seq::<Seq<char>>::empty());
    reveal_with_fuel(Seq::filter, 2);
    assert(endpoints_in(endpoint) == seq![endpoint]);
}

/// What was set is the list that counts, to the last character, unless it is missing or
/// empty; then the default is.
pub proof fn lemma_setting_is_the_list(list: Seq<char>)
    ensures
        connect_list(Some(list)) == if list.len() > 0 {
            list
        } else {
            DEFAULT_ZENOH_CONNECT@
        },
        connect_list(None) == DEFAULT_ZENOH_CONNECT@,
{
}

/// The endpoints of two lists with a comma between them are those of the first and then those
/// of the second, however many there are.
pub proof fn lemma_endpoints_of_two_lists(first: Seq<char>, second: Seq<char>)
    ensures
        endpoints_in(first.push(',') + second) == endpoints_in(first) + endpoints_in(second),
{
    let clean = |piece: Seq<char>| trimmed(piece);
    let kept = |endpoint: Seq<char>| endpoint.len() > 0;
    let front = pieces(first, ',');
    let back = pieces(second, ',');
    lemma_pieces_of_concatenation(first, ',', second);
    assert((front + back).map_values(clean) == front.map_values(clean) + back.map_values(clean));
    Seq::filter_distributes_over_add(front.map_values(clean), back.map_values(clean), kept);
}

/// A piece of a list without a comma gives the one endpoint that it holds, without the white
/// space around it, and none where it holds nothing but white space.
pub proof fn lemma_endpoint_of_piece(before: Seq<char>, endpoint: Seq<char>, after: Seq<char>)
    requires
        forall|i: int| 0 <= i < before.len() ==> is_white_space(#[trigger] before[i]),
        forall|i: int| 0 <= i < after.len() ==> is_white_space(#[trigger] after[i]),
        endpoint.len() > 0 ==> !is_white_space(endpoint.first()) && !is_white_space(
            endpoint.last(),
        ),
        !endpoint.contains(','),
    ensures
        endpoints_in(before + endpoint + after) == if endpoint.len() > 0 {
            seq![endpoint]
        } else {
            Seq::empty()
        },
{
    let piece = before + endpoint + after;
    assert forall|i: int| 0 <= i < piece.len() implies piece[i] != ',' by {
        if i < before.len() {
            assert(is_white_space(before[i]));
        } else if i < before.len() + endpoint.len() {
            assert(endpoint[i - before.len()] == piece[i]);
        } else {
            assert(is_white_space(after[i - before.len() - endpoint.len()]));
        }
    }
    lemma_single_piece(piece, ',');
    lemma_trimmed_is_what_is_inside(before, endpoint, after);
    let candidates = pieces(piece, ',').map_values(|piece: Seq<char>| trimmed(piece));
    assert(candidates == seq![endpoint]);
    assert(candidates.drop_last() == Seq::<Seq<char>>::empty());
    reveal_with_fuel(Seq::filter, 2);
    assert(endpoints_in(piece) == if endpoint.len() > 0 {
        seq![endpoint]
    } else {
        Seq::empty()
    });
}

}
