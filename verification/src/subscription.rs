//! The samples that arrive on the subscription to the ability's commands.
use vstd::prelude::*;
use vstd::utf8::{encode_utf8, valid_utf8};

use crate::ability::ABILITY_PREFIX;

verus! {

/// Declares `zenoh::bytes::ZBytes`, the bytes of a payload, as opaque.
#[verifier::external_type_specification]
#[verifier::external_body]
pub struct ExZBytes(zenoh::bytes::ZBytes);

/// The bytes that a payload holds.
pub uninterp spec fn payload_bytes(payload: zenoh::bytes::ZBytes) -> Seq<u8>;

/// Calls `zenoh::bytes::ZBytes::try_to_string`: the text whose UTF-8 the payload is, or
/// `None` where the payload is not UTF-8.
#[verifier::external_body]
fn payload_text(payload: &zenoh::bytes::ZBytes) -> (text: Option<String>)
    ensures
        text is Some <==> valid_utf8(payload_bytes(*payload)),
        text is Some ==> encode_utf8(text->0@) == payload_bytes(*payload),
{
    match payload.try_to_string() {
        Ok(text) => Some(text.to_string()),
        Err(_) => None,
    }
}

/// What arrives on the subscription.
pub enum SubscriptionEvent {
    /// A sample: its key and its payload.
    Sample(String, zenoh::bytes::ZBytes),
    /// No sample can come any more.
    Closed,
}

/// What is to be done before the next sample is taken.
pub enum SubscriptionAction {
    /// Handle the command with this key and this payload.
    Handle(String, String),
    /// Leave the sample with this key alone.
    Skip(String),
    /// End.
    Finish,
}

/// The key expression that covers every command for the ability.
pub fn ability_subscription() -> (key_expression: String)
    ensures
        key_expression@ == ABILITY_PREFIX@ + "**"@,
{
    ABILITY_PREFIX.to_owned().concat("**")
}

/// Takes what arrived: a payload that is UTF-8 is handled, any other is skipped, and a
/// closed subscription ends the loop.
pub fn take_sample(event: SubscriptionEvent) -> (action: SubscriptionAction)
    ensures
        match event {
            SubscriptionEvent::Sample(key, payload) => if valid_utf8(payload_bytes(payload)) {
                action matches SubscriptionAction::Handle(handled_key, text) && handled_key == key
                    && encode_utf8(text@) == payload_bytes(payload)
            } else {
                action == SubscriptionAction::Skip(key)
            },
            SubscriptionEvent::Closed => action is Finish,
        },
{
    match event {
        SubscriptionEvent::Sample(key, payload) => match payload_text(&payload) {
            Some(text) => SubscriptionAction::Handle(key, text),
            None => SubscriptionAction::Skip(key),
        },
        SubscriptionEvent::Closed => SubscriptionAction::Finish,
    }
}

}
