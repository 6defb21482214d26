use internal_api::subscription::{
    ability_subscription, take_sample, SubscriptionAction, SubscriptionEvent,
};
use zenoh::bytes::ZBytes;

#[test]
fn subscription_covers_all_commands() {
    assert_eq!(
        ability_subscription(),
        "nc/v1/events/iothub_client/ability/rustdesk/**"
    );
}

#[test]
fn text_is_handled() {
    let payload = ZBytes::from("{\"ts\":1} \u{e9}\u{1f680}");
    match take_sample(SubscriptionEvent::Sample("k/e/y".to_string(), payload)) {
        SubscriptionAction::Handle(key, text) => {
            assert_eq!(key, "k/e/y");
            assert_eq!(text, "{\"ts\":1} \u{e9}\u{1f680}");
        }
        _ => panic!("a text was not handled"),
    }
}

#[test]
fn empty_payload_is_handled() {
    match take_sample(SubscriptionEvent::Sample("k".to_string(), ZBytes::new())) {
        SubscriptionAction::Handle(_, text) => assert_eq!(text, ""),
        _ => panic!("an empty text was not handled"),
    }
}

#[test]
fn bytes_that_are_no_text_are_skipped() {
    for bytes in [vec![0xffu8], vec![b'a', 0xc3], vec![0xed, 0xa0, 0x80], vec![0xc0, 0x80]] {
        match take_sample(SubscriptionEvent::Sample("k".to_string(), ZBytes::from(bytes))) {
            SubscriptionAction::Skip(key) => assert_eq!(key, "k"),
            _ => panic!("bytes that are no text were handled"),
        }
    }
}

#[test]
fn closed_subscription_ends_the_loop() {
    let action = take_sample(SubscriptionEvent::Closed);
    assert!(matches!(action, SubscriptionAction::Finish));
}
