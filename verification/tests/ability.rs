use internal_api::ability::{
    ability_action_from_key, ability_context, handle_ability, set_ability_context, AbilityContext,
    AbilityEnvelope, AbilityEnvelopeData, AbilityError, ABILITY_PREFIX,
};
use internal_api::worker::AbilityAckEvent;

fn envelope(bid: Option<&str>, tid: Option<&str>) -> Result<AbilityEnvelope, String> {
    Ok(AbilityEnvelope {
        ts: 1,
        data: AbilityEnvelopeData {
            bid: bid.map(str::to_string),
            tid: tid.map(str::to_string),
            params: None,
        },
    })
}

fn action(key: &str) -> Option<String> {
    ability_action_from_key(key)
}

#[test]
fn key_with_type_and_action_names_the_action() {
    assert_eq!(ABILITY_PREFIX, "nc/v1/events/iothub_client/ability/rustdesk/");
    let key = "nc/v1/events/iothub_client/ability/rustdesk/command/start";
    assert_eq!(action(key), Some("start".to_string()));
}

#[test]
fn segments_below_the_action_do_not_count() {
    let key = "nc/v1/events/iothub_client/ability/rustdesk/command/stop/now/please";
    assert_eq!(action(key), Some("stop".to_string()));
}

#[test]
fn type_may_be_empty() {
    let key = "nc/v1/events/iothub_client/ability/rustdesk//start";
    assert_eq!(action(key), Some("start".to_string()));
}

#[test]
fn keys_without_an_action() {
    assert_eq!(action(""), None);
    assert_eq!(action("start"), None);
    assert_eq!(action("nc/v1/events/iothub_client/ability/rustdesk"), None);
    assert_eq!(action("nc/v1/events/iothub_client/ability/rustdesk/"), None);
    assert_eq!(action("nc/v1/events/iothub_client/ability/rustdesk/command"), None);
    assert_eq!(action("nc/v1/events/iothub_client/ability/rustdesk/command/"), None);
    assert_eq!(action("nc/v1/events/iothub_client/ability/rustdesk/command//start"), None);
    assert_eq!(action("nc/v1/events/iothub_client/ability/otherdesk/command/start"), None);
    assert_eq!(action("x/nc/v1/events/iothub_client/ability/rustdesk/command/start"), None);
}

#[test]
fn action_may_hold_any_character_but_a_slash() {
    let key = "nc/v1/events/iothub_client/ability/rustdesk/t/d\u{e9}marrer \u{1f680}";
    assert_eq!(action(key), Some("d\u{e9}marrer \u{1f680}".to_string()));
}

#[test]
fn context_keeps_the_last_complete_command() {
    let mut context = AbilityContext::new();
    assert_eq!(ability_context(&context), (None, None));
    set_ability_context(&mut context, Some("b1".to_string()), None);
    assert_eq!(ability_context(&context), (None, None));
    set_ability_context(&mut context, Some("b1".to_string()), Some("t1".to_string()));
    set_ability_context(&mut context, None, Some("t2".to_string()));
    set_ability_context(&mut context, None, None);
    assert_eq!(
        ability_context(&context),
        (Some("b1".to_string()), Some("t1".to_string()))
    );
    set_ability_context(&mut context, Some("b3".to_string()), Some("".to_string()));
    assert_eq!(
        ability_context(&context),
        (Some("b3".to_string()), Some("".to_string()))
    );
}

#[test]
fn start_and_stop_are_handled() {
    let mut context = AbilityContext::new();
    let key = format!("{ABILITY_PREFIX}command/start");
    let handled = handle_ability(&key, envelope(Some("b"), Some("t")), &mut context);
    assert!(matches!(handled, Ok(AbilityAckEvent::Start)));
    assert_eq!(
        ability_context(&context),
        (Some("b".to_string()), Some("t".to_string()))
    );
    let key = format!("{ABILITY_PREFIX}command/stop");
    let handled = handle_ability(&key, envelope(None, None), &mut context);
    assert!(matches!(handled, Ok(AbilityAckEvent::Stop)));
    assert_eq!(
        ability_context(&context),
        (Some("b".to_string()), Some("t".to_string()))
    );
}

#[test]
fn missing_action_is_refused_before_the_payload_is_looked_at() {
    let mut context = AbilityContext::new();
    let handled = handle_ability("other/key", Err("bad".to_string()), &mut context);
    match handled {
        Err(error) => {
            assert!(matches!(error, AbilityError::MissingAction(_)));
            assert_eq!(error.message(), "ability key missing action: other/key");
        }
        Ok(_) => panic!("a key without an action was handled"),
    }
    let handled = handle_ability("other/key", envelope(Some("b"), Some("t")), &mut context);
    assert!(handled.is_err());
    assert_eq!(ability_context(&context), (None, None));
}

#[test]
fn payload_that_is_no_envelope_is_refused() {
    let mut context = AbilityContext::new();
    let key = format!("{ABILITY_PREFIX}command/start");
    let handled = handle_ability(&key, Err("expected value at line 1".to_string()), &mut context);
    match handled {
        Err(error) => {
            assert!(matches!(error, AbilityError::Payload(_)));
            assert_eq!(
                error.message(),
                "parse ability payload: expected value at line 1"
            );
        }
        Ok(_) => panic!("a payload that is no envelope was handled"),
    }
    assert_eq!(ability_context(&context), (None, None));
}

#[test]
fn unsupported_action_is_refused_but_remembered() {
    let mut context = AbilityContext::new();
    let key = format!("{ABILITY_PREFIX}command/Start");
    let handled = handle_ability(&key, envelope(Some("b"), Some("t")), &mut context);
    match handled {
        Err(error) => {
            assert!(matches!(error, AbilityError::UnsupportedAction(_)));
            assert_eq!(error.message(), "ability unsupported action: Start");
        }
        Ok(_) => panic!("an unsupported action was handled"),
    }
    assert_eq!(
        ability_context(&context),
        (Some("b".to_string()), Some("t".to_string()))
    );
}
