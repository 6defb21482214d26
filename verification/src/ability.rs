//! The commands that arrive for the ability: which action a key names, whom it is
//! acknowledged to, and what it asks for.
use vstd::prelude::*;

use crate::text::{split, strip_prefix};
use crate::text::{optional_text, pieces};
use crate::text::{joined, lemma_joined_from_front, lemma_pieces};
use crate::text::{lemma_pieces_of_concatenation, lemma_single_piece};
use crate::worker::AbilityAckEvent;

verus! {

/// Where commands for the ability arrive, but for the type and the action.
pub const ABILITY_PREFIX: &'static str = "nc/v1/events/iothub_client/ability/rustdesk/";

/// A command for the ability.
pub struct AbilityEnvelope {
    pub ts: i64,
    pub data: AbilityEnvelopeData,
}

/// What a command carries: the request and the task that it belongs to, and its parameters.
pub struct AbilityEnvelopeData {
    pub bid: Option<String>,
    pub tid: Option<String>,
    pub params: Option<serde_json::Value>,
}

/// The request and the task that are acknowledged to.
pub struct AbilityContext {
    ids: Option<(String, String)>,
}

impl View for AbilityContext {
    type V = Option<(Seq<char>, Seq<char>)>;

    closed spec fn view(&self) -> Option<(Seq<char>, Seq<char>)> {
        match self.ids {
            Some((bid, tid)) => Some((bid@, tid@)),
            None => None,
        }
    }
}

impl AbilityContext {
    /// The context before the first command.
    pub fn new() -> (context: AbilityContext)
        ensures
            context@ is None,
    {
        AbilityContext { ids: None }
    }
}

/// The context after a command: that of the command where it names both a request and a
/// task, else the one from before.
pub open spec fn context_after(
    context: Option<(Seq<char>, Seq<char>)>,
    bid: Option<Seq<char>>,
    tid: Option<Seq<char>>,
) -> Option<(Seq<char>, Seq<char>)> {
    match (bid, tid) {
        (Some(bid), Some(tid)) => Some((bid, tid)),
        _ => context,
    }
}

/// The request and the task of a context, each of which may be missing.
pub open spec fn ids_of(context: Option<(Seq<char>, Seq<char>)>) -> (
    Option<Seq<char>>,
    Option<Seq<char>>,
) {
    match context {
        Some((bid, tid)) => (Some(bid), Some(tid)),
        None => (None, None),
    }
}

/// Remembers the request and the task of a command that names both.
pub fn set_ability_context(context: &mut AbilityContext, bid: Option<String>, tid: Option<String>)
    ensures
        final(context)@ == context_after(old(context)@, optional_text(bid), optional_text(tid)),
        bid is Some && tid is Some ==> final(context)@ == Some((bid->0@, tid->0@)),
        bid is None || tid is None ==> final(context)@ == old(context)@,
{
    if let (Some(bid), Some(tid)) = (bid, tid) {
        context.ids = Some((bid, tid));
    }
}

/// The request and the task that were remembered last.
pub fn ability_context(context: &AbilityContext) -> (ids: (Option<String>, Option<String>))
    ensures
        (optional_text(ids.0), optional_text(ids.1)) == ids_of(context@),
        context@ is Some ==> ids.0 is Some && ids.1 is Some && (ids.0->0@, ids.1->0@)
            == context@->0,
        context@ is None ==> ids.0 is None && ids.1 is None,
{
    match &context.ids {
        Some((bid, tid)) => (Some(bid.clone()), Some(tid.clone())),
        None => (None, None),
    }
}

/// The action that a key names: what stands between the second and the third slash behind
/// the prefix, counting the prefix's own as the first, unless that is missing or empty.
pub open spec fn action_of_key(key: Seq<char>) -> Option<Seq<char>> {
    let behind = pieces(key.skip(ABILITY_PREFIX@.len() as int), '/');
    if ABILITY_PREFIX@.is_prefix_of(key) && behind.len() >= 2 && behind[1].len() > 0 {
        Some(behind[1])
    } else {
        None
    }
}

/// The action that a key names.
pub fn ability_action_from_key(key: &str) -> (action: Option<String>)
    ensures
        optional_text(action) == action_of_key(key@),
        action_of_key(key@) is Some ==> action is Some && action->0@ == action_of_key(key@)->0,
        action_of_key(key@) is None ==> action is None,
{
    match strip_prefix(key, ABILITY_PREFIX) {
        Some(rest) => {
            assert(rest@ == key@.skip(ABILITY_PREFIX@.len() as int));
            let mut parts: Vec<String> = split(rest.as_str(), '/');
            assert(parts@.len() == pieces(rest@, '/').len());
            if parts.len() < 2 {
                return None;
            }
            let action: String = parts.remove(1);
            assert(action@ == pieces(rest@, '/')[1]);
            if action.as_str().is_empty() {
                None
            } else {
                Some(action)
            }
        },
        None => None,
    }
}

/// Why a command is refused.
pub enum AbilityError {
    /// The key names no action.
    MissingAction(String),
    /// The payload is no envelope, for this reason.
    Payload(String),
    /// The action is none that can be asked for.
    UnsupportedAction(String),
}

impl AbilityError {
    /// The text of this error.
    pub open spec fn text(self) -> Seq<char> {
        match self {
            AbilityError::MissingAction(key) => "ability key missing action: "@ + key@,
            AbilityError::Payload(reason) => "parse ability payload: "@ + reason@,
            AbilityError::UnsupportedAction(action) => "ability unsupported action: "@ + action@,
        }
    }

    /// The text of this error.
    pub fn message(&self) -> (message: String)
        ensures
            message@ == self.text(),
            message@ == match self {
                AbilityError::MissingAction(key) => "ability key missing action: "@ + key@,
                AbilityError::Payload(reason) => "parse ability payload: "@ + reason@,
                AbilityError::UnsupportedAction(action) => "ability unsupported action: "@
                    + action@,
            },
    {
        match self {
            AbilityError::MissingAction(key) => "ability key missing action: ".to_owned().concat(
                key.as_str(),
            ),
            AbilityError::Payload(reason) => "parse ability payload: ".to_owned().concat(
                reason.as_str(),
            ),
            AbilityError::UnsupportedAction(
                action,
            ) => "ability unsupported action: ".to_owned().concat(action.as_str()),
        }
    }
}

/// What a command asks for, or why it is refused. A command that has an action and an
/// envelope is remembered, whatever the action is.
pub fn handle_ability(
    key: &str,
    envelope: Result<AbilityEnvelope, String>,
    context: &mut AbilityContext,
) -> (handled: Result<AbilityAckEvent, AbilityError>)
    ensures
        final(context)@ == (match (action_of_key(key@), envelope) {
            (Some(_), Ok(envelope)) => context_after(
                old(context)@,
                optional_text(envelope.data.bid),
                optional_text(envelope.data.tid),
            ),
            _ => old(context)@,
        }),
        final(context)@ == (if action_of_key(key@) is Some && envelope is Ok
            && envelope->Ok_0.data.bid is Some && envelope->Ok_0.data.tid is Some {
            Some((envelope->Ok_0.data.bid->0@, envelope->Ok_0.data.tid->0@))
        } else {
            old(context)@
        }),
        match (action_of_key(key@), envelope) {
            (None, _) => handled matches Err(AbilityError::MissingAction(named)) && named@ == key@,
            (Some(_), Err(reason)) => handled == Err::<AbilityAckEvent, _>(
                AbilityError::Payload(reason),
            ),
            (Some(action), Ok(_)) => if action == "start"@ {
                handled == Ok::<_, AbilityError>(AbilityAckEvent::Start)
            } else if action == "stop"@ {
                handled == Ok::<_, AbilityError>(AbilityAckEvent::Stop)
            } else {
                handled matches Err(AbilityError::UnsupportedAction(named)) && named@ == action
            },
        },
{
    let action: String = match ability_action_from_key(key) {
        Some(action) => action,
        None => {
            return Err(AbilityError::MissingAction(key.to_owned()));
        },
    };
    let envelope: AbilityEnvelope = match envelope {
        Ok(envelope) => envelope,
        Err(reason) => {
            return Err(AbilityError::Payload(reason));
        },
    };
    set_ability_context(context, envelope.data.bid, envelope.data.tid);
    proof {
        reveal_strlit("start");
        reveal_strlit("stop");
    }
    if action == "start".to_owned() {
        Ok(AbilityAckEvent::Start)
    } else if action == "stop".to_owned() {
        Ok(AbilityAckEvent::Stop)
    } else {
        Err(AbilityError::UnsupportedAction(action))
    }
}

/// The key of an action of a type, and any key below it, names that action.
pub proof fn lemma_action_of_built_key(kind: Seq<char>, action: Seq<char>, below: Seq<char>)
    requires
        !kind.contains('/'),
        !action.contains('/'),
        action.len() > 0,
    ensures
        action_of_key(ABILITY_PREFIX@ + kind.push('/') + action) == Some(action),
        action_of_key(ABILITY_PREFIX@ + kind.push('/') + action.push('/') + below) == Some(action),
{
    lemma_single_piece(kind, '/');
    lemma_single_piece(action, '/');
    let short = ABILITY_PREFIX@ + kind.push('/') + action;
    assert(short.skip(ABILITY_PREFIX@.len() as int) == kind.push('/') + action);
    lemma_pieces_of_concatenation(kind, '/', action);
    let long = ABILITY_PREFIX@ + kind.push('/') + action.push('/') + below;
    assert(long.skip(ABILITY_PREFIX@.len() as int) == kind.push('/') + (action.push('/') + below));
    lemma_pieces_of_concatenation(kind, '/', action.push('/') + below);
    lemma_pieces_of_concatenation(action, '/', below);
    assert(ABILITY_PREFIX@.is_prefix_of(short));
    assert(ABILITY_PREFIX@.is_prefix_of(long));
}

/// An action is never empty and holds no slash, and only keys behind the prefix name one.
pub proof fn lemma_action_is_a_segment(key: Seq<char>)
    requires
        action_of_key(key) is Some,
    ensures
        action_of_key(key)->0.len() > 0,
        !action_of_key(key)->0.contains('/'),
        ABILITY_PREFIX@.is_prefix_of(key),
{
    lemma_pieces(key.skip(ABILITY_PREFIX@.len() as int), '/');
}

/// A command that names only one of request and task, or neither, leaves the context as the
/// last complete command made it.
pub proof fn lemma_incomplete_command_keeps_context(
    context: Option<(Seq<char>, Seq<char>)>,
    bid: Seq<char>,
    tid: Seq<char>,
    later_bid: Option<Seq<char>>,
    later_tid: Option<Seq<char>>,
)
    requires
        later_bid is None || later_tid is None,
    ensures
        ids_of(context_after(context_after(context, Some(bid), Some(tid)), later_bid, later_tid))
            == (Some(bid), Some(tid)),
{
}

/// A key that names an action is made of the prefix, a type without a slash, a slash, the
/// action, and then nothing or a slash and whatever follows. No other key names one.
pub proof fn lemma_key_of_action(key: Seq<char>) -> (around: (Seq<char>, Seq<char>))
    requires
        action_of_key(key) is Some,
    ensures
        key == ABILITY_PREFIX@ + around.0.push('/') + action_of_key(key)->0 + around.1,
        !around.0.contains('/'),
        around.1.len() > 0 ==> around.1[0] == '/',
        action_of_key(key)->0.len() > 0,
        !action_of_key(key)->0.contains('/'),
{
    let behind = key.skip(ABILITY_PREFIX@.len() as int);
    let parts = pieces(behind, '/');
    lemma_pieces(behind, '/');
    lemma_joined_from_front(parts, '/');
    assert(key == ABILITY_PREFIX@ + behind);
    let rest = parts.skip(1);
    assert(rest[0] == parts[1]);
    let below = if parts.len() == 2 {
        Seq::empty()
    } else {
        seq!['/'] + joined(rest.skip(1), '/')
    };
    if parts.len() > 2 {
        lemma_joined_from_front(rest, '/');
    }
    assert(joined(rest, '/') == parts[1] + below);
    assert(key == ABILITY_PREFIX@ + parts[0].push('/') + parts[1] + below);
    (parts[0], below)
}

/// A command that names both a request and a task makes the context, whatever it was before;
/// any other leaves it as it was. Before the first there is neither.
pub proof fn lemma_context_is_the_last_complete_one(
    context: Option<(Seq<char>, Seq<char>)>,
    bid: Option<Seq<char>>,
    tid: Option<Seq<char>>,
)
    ensures
        bid is Some && tid is Some ==> ids_of(context_after(context, bid, tid)) == (bid, tid),
        bid is None || tid is None ==> ids_of(context_after(context, bid, tid)) == ids_of(context),
        context matches Some(ids) ==> ids_of(context) == (Some(ids.0), Some(ids.1)),
        context is None ==> ids_of(context).0 is None && ids_of(context).1 is None,
{
}

}
