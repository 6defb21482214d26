use internal_api::session::{
    build_zenoh_config, configure_zenoh, endpoints_json, init_zenoh, zenoh_endpoints, SessionAttempt, SessionError,
    DEFAULT_ZENOH_CONNECT, OPEN_TIMEOUT_SECS,
};

fn endpoints(setting: &str) -> Vec<String> {
    zenoh_endpoints(Some(setting.to_string()))
}

#[test]
fn default_endpoint() {
    assert_eq!(DEFAULT_ZENOH_CONNECT, "tcp/192.168.217.100:37447");
    assert_eq!(zenoh_endpoints(None), vec!["tcp/192.168.217.100:37447"]);
    assert_eq!(endpoints(""), vec!["tcp/192.168.217.100:37447"]);
}

#[test]
fn endpoints_are_split_and_trimmed() {
    assert_eq!(endpoints("tcp/a:1"), vec!["tcp/a:1"]);
    assert_eq!(
        endpoints(" tcp/a:1 ,\ttcp/b:2\n,,  ,\u{a0}tcp/c:3\u{3000}"),
        vec!["tcp/a:1", "tcp/b:2", "tcp/c:3"]
    );
    assert_eq!(endpoints("a b, c"), vec!["a b", "c"]);
}

#[test]
fn list_of_nothing_has_no_endpoint() {
    assert!(endpoints(",").is_empty());
    assert!(endpoints(" ").is_empty());
    assert!(endpoints(" , ,").is_empty());
}

#[test]
fn endpoints_as_json() {
    let json = endpoints_json(&vec!["tcp/a:1".to_string(), "b".to_string()]).unwrap();
    assert_eq!(json, "[\"tcp/a:1\",\"b\"]");
    assert_eq!(endpoints_json(&Vec::new()).unwrap(), "[]");
}

#[test]
fn every_character_is_written_as_json_asks() {
    for code in 0..0x3000u32 {
        let c = match char::from_u32(code) {
            Some(c) => c,
            None => continue,
        };
        let expected = match c {
            '"' => "\\\"".to_string(),
            '\\' => "\\\\".to_string(),
            '\u{8}' => "\\b".to_string(),
            '\t' => "\\t".to_string(),
            '\n' => "\\n".to_string(),
            '\u{c}' => "\\f".to_string(),
            '\r' => "\\r".to_string(),
            _ if code < 0x20 => format!("\\u00{code:02x}"),
            _ => c.to_string(),
        };
        let json = endpoints_json(&vec![c.to_string()]).unwrap();
        assert_eq!(json, format!("[\"{expected}\"]"));
    }
}

#[test]
fn configuration_holds_the_settings() {
    let setting = Some("tcp/127.0.0.1:1, tcp/127.0.0.1:2".to_string());
    let (config, accepted) = build_zenoh_config(setting);
    assert!(accepted);
    assert_eq!(config.get_json("mode").unwrap(), "\"client\"");
    assert_eq!(config.get_json("scouting/multicast/enabled").unwrap(), "false");
    assert_eq!(
        config.get_json("connect/endpoints").unwrap(),
        "[\"tcp/127.0.0.1:1\",\"tcp/127.0.0.1:2\"]"
    );
}

#[test]
fn settings_replace_those_of_the_configuration() {
    let given = zenoh::Config::from_json5("{mode: \"router\", id: \"a1\"}").unwrap();
    let (config, accepted) = configure_zenoh(given, Some("tcp/127.0.0.1:1".to_string()));
    assert!(accepted);
    assert_eq!(config.get_json("mode").unwrap(), "\"client\"");
    assert_eq!(config.get_json("id").unwrap(), "\"a1\"");
    assert_eq!(
        config.get_json("connect/endpoints").unwrap(),
        "[\"tcp/127.0.0.1:1\"]"
    );
}

#[test]
fn configuration_falls_back_to_the_default_endpoint() {
    let (config, accepted) = build_zenoh_config(None);
    assert!(accepted);
    assert_eq!(
        config.get_json("connect/endpoints").unwrap(),
        "[\"tcp/192.168.217.100:37447\"]"
    );
}

#[test]
fn endpoint_that_is_none_is_not_accepted() {
    let setting = Some("no endpoint".to_string());
    let (config, accepted) = build_zenoh_config(setting);
    assert!(!accepted);
    assert_eq!(config.get_json("mode").unwrap(), "\"client\"");
}

#[test]
fn endpoints_with_any_character_are_taken_or_refused() {
    for code in 0..0x3000u32 {
        let c = match char::from_u32(code) {
            Some(c) => c,
            None => continue,
        };
        let endpoint = format!("tcp/a{c}b");
        let setting = Some(endpoint.clone());
        let (config, accepted) = build_zenoh_config(setting.clone());
        let again = build_zenoh_config(setting);
        assert_eq!(accepted, again.1);
        assert_eq!(
            config.get_json("connect/endpoints").unwrap(),
            again.0.get_json("connect/endpoints").unwrap()
        );
        if c.is_alphanumeric() {
            assert!(accepted);
            assert_eq!(
                config.get_json("connect/endpoints").unwrap(),
                format!("[\"{endpoint}\"]")
            );
        }
    }
}

#[test]
fn attempts_to_have_a_session() {
    assert_eq!(OPEN_TIMEOUT_SECS, 5);
    assert!(init_zenoh(SessionAttempt::Present).is_ok());
    assert!(init_zenoh(SessionAttempt::Kept).is_ok());
    let message = |attempt| match init_zenoh(attempt) {
        Ok(()) => panic!("there is no session"),
        Err(error) => error.message(),
    };
    assert_eq!(message(SessionAttempt::TimedOut), "open zenoh session timeout (5s)");
    assert_eq!(
        message(SessionAttempt::Failed("refused".to_string())),
        "open zenoh session: refused"
    );
    assert_eq!(message(SessionAttempt::Late), "zenoh session already initialized");
}

#[test]
fn other_errors_of_the_session() {
    assert_eq!(SessionError::NotInitialized.message(), "zenoh session not initialized");
    assert_eq!(
        SessionError::Publish("a/b".to_string(), "closed".to_string()).message(),
        "publish a/b: closed"
    );
    assert_eq!(
        SessionError::DeclareSubscriber("closed".to_string()).message(),
        "declare ability subscriber: closed"
    );
}
