use internal_api::options::{
    apply_startup_config, restart_needed, verification_setting, watched_options, ConfigAction,
    OptionKey, ServerSites,
};

fn sites() -> ServerSites {
    ServerSites {
        id_server: "id.example".to_string(),
        relay_server: "relay.example".to_string(),
        server_key: "k=".to_string(),
    }
}

fn described(changes: &[ConfigAction]) -> Vec<(char, OptionKey, String)> {
    changes
        .iter()
        .map(|change| match change {
            ConfigAction::AddDefault(setting) => ('d', setting.key, setting.value.clone()),
            ConfigAction::SetBuiltin(setting) => ('b', setting.key, setting.value.clone()),
            ConfigAction::SetOption(setting) => ('o', setting.key, setting.value.clone()),
        })
        .collect()
}

fn same(found: &[(char, OptionKey, String)], expected: &[(char, OptionKey, &str)]) -> bool {
    found.len() == expected.len()
        && found
            .iter()
            .zip(expected)
            .all(|(a, b)| a.0 == b.0 && a.1 == b.1 && a.2 == b.2)
}

#[test]
fn changes_at_the_start() {
    let changes = described(&apply_startup_config(sites(), &Vec::new()));
    assert!(same(
        &changes,
        &[
            ('d', OptionKey::DirectServer, "Y"),
            ('d', OptionKey::AllowRemoteConfigModification, "Y"),
            ('d', OptionKey::AllowLinuxHeadless, "Y"),
            ('b', OptionKey::RegisterDevice, "N"),
            ('o', OptionKey::CustomRendezvousServer, "id.example"),
            ('o', OptionKey::ApiServer, ""),
            ('o', OptionKey::RelayServer, "relay.example"),
            ('o', OptionKey::Key, "k="),
            ('o', OptionKey::DirectServer, "Y"),
            ('o', OptionKey::AllowRemoteConfigModification, "Y"),
            ('o', OptionKey::AllowLinuxHeadless, "Y"),
        ]
    ));
}

#[test]
fn defaults_that_are_there_are_left_alone() {
    let present = vec![OptionKey::Key, OptionKey::AllowRemoteConfigModification];
    let changes = described(&apply_startup_config(sites(), &present));
    assert!(same(
        &changes[..3],
        &[
            ('d', OptionKey::DirectServer, "Y"),
            ('d', OptionKey::AllowLinuxHeadless, "Y"),
            ('b', OptionKey::RegisterDevice, "N"),
        ]
    ));
    let present = vec![
        OptionKey::AllowLinuxHeadless,
        OptionKey::DirectServer,
        OptionKey::AllowRemoteConfigModification,
    ];
    let changes = described(&apply_startup_config(sites(), &present));
    assert!(same(&changes[..1], &[('b', OptionKey::RegisterDevice, "N")]));
    assert_eq!(changes.len(), 8);
}

#[test]
fn watched_options_are_those_that_are_set() {
    let set: Vec<OptionKey> = described(&apply_startup_config(sites(), &Vec::new()))
        .into_iter()
        .filter(|change| change.0 == 'o')
        .map(|change| change.1)
        .collect();
    assert!(set == watched_options());
}

#[test]
fn restart_is_needed_where_something_changed() {
    let values = |texts: &[&str]| texts.iter().map(|t| t.to_string()).collect::<Vec<String>>();
    let before = values(&["id.example", "", "", "", "Y", "Y", "Y"]);
    assert!(!restart_needed(&before, &before.clone()));
    assert!(restart_needed(&before, &values(&["id.example", "", "", "", "Y", "Y", "N"])));
    assert!(restart_needed(&before, &values(&["", "", "", "", "Y", "Y", "Y"])));
    assert!(restart_needed(&before, &values(&["id.example"])));
    assert!(!restart_needed(&Vec::new(), &Vec::new()));
}

#[test]
fn only_the_permanent_password_opens_a_connection() {
    let setting = verification_setting();
    assert!(setting.key == OptionKey::VerificationMethod);
    assert_eq!(setting.value, "use-permanent-password");
}

fn put(settings: &mut Vec<(OptionKey, String)>, key: OptionKey, value: String) {
    match settings.iter_mut().find(|setting| setting.0 == key) {
        Some(setting) => setting.1 = value,
        None => settings.push((key, value)),
    }
}

#[test]
fn second_start_changes_nothing() {
    let mut defaults = vec![(OptionKey::DirectServer, "N".to_string())];
    let mut builtin = Vec::new();
    let mut options = vec![
        (OptionKey::Key, "old".to_string()),
        (OptionKey::VerificationMethod, "kept".to_string()),
    ];
    let mut start = || {
        let present: Vec<OptionKey> = defaults.iter().map(|setting| setting.0).collect();
        for change in apply_startup_config(sites(), &present) {
            match change {
                ConfigAction::AddDefault(s) => put(&mut defaults, s.key, s.value),
                ConfigAction::SetBuiltin(s) => put(&mut builtin, s.key, s.value),
                ConfigAction::SetOption(s) => put(&mut options, s.key, s.value),
            }
        }
        (defaults.clone(), builtin.clone(), options.clone())
    };
    let once = start();
    let twice = start();
    assert!(once == twice);
    assert!(once.0.contains(&(OptionKey::DirectServer, "N".to_string())));
    assert!(once.0.contains(&(OptionKey::AllowLinuxHeadless, "Y".to_string())));
    assert!(once.1 == vec![(OptionKey::RegisterDevice, "N".to_string())]);
    assert!(once.2.contains(&(OptionKey::Key, "k=".to_string())));
    assert!(once.2.contains(&(OptionKey::VerificationMethod, "kept".to_string())));
}
