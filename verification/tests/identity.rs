use internal_api::identity::{sanitized_hostname, set_hostname_id, IdentityAction};

fn id(hostname: &str) -> Option<String> {
    sanitized_hostname(hostname)
}

#[test]
fn fit_names_are_kept() {
    assert_eq!(id("host-1"), Some("host-1".to_string()));
    assert_eq!(id("A_b.C-9"), Some("A_b.C-9".to_string()));
}

#[test]
fn spaces_become_hyphens_but_for_those_around() {
    assert_eq!(id("  my  host \n"), Some("my--host".to_string()));
    assert_eq!(id("a\tb"), Some("ab".to_string()));
    assert_eq!(id("\t a"), Some("a".to_string()));
}

#[test]
fn other_characters_are_left_out() {
    assert_eq!(id("h\u{f6}st!@#1"), Some("hst1".to_string()));
    assert_eq!(id("\u{4e3b}\u{673a}-1"), Some("-1".to_string()));
    assert_eq!(id("a/b:c"), Some("abc".to_string()));
}

#[test]
fn nothing_left_is_no_identity() {
    assert_eq!(id(""), None);
    assert_eq!(id("   \t\n"), None);
    assert_eq!(id("\u{4e3b}\u{673a}"), None);
    assert_eq!(id("!?"), None);
}

#[test]
fn identity_of_an_identity_is_itself() {
    for hostname in ["  my  host ", "h\u{f6}st!@#1", "-", ". .", "a\u{a0}b"] {
        let once = id(hostname).unwrap();
        assert_eq!(id(&once), Some(once.clone()));
    }
}

#[test]
fn white_space_is_that_of_unicode() {
    let listed = |code: u32| {
        (0x9..=0xd).contains(&code)
            || (0x2000..=0x200a).contains(&code)
            || [0x20, 0x85, 0xa0, 0x1680, 0x2028, 0x2029, 0x202f, 0x205f, 0x3000].contains(&code)
    };
    for code in 0..=0x10ffffu32 {
        let c = match char::from_u32(code) {
            Some(c) => c,
            None => continue,
        };
        let expected = if listed(code) {
            "a".to_string()
        } else if c.is_ascii_alphanumeric() || c == '-' || c == '_' || c == '.' {
            format!("{c}-a")
        } else {
            "-a".to_string()
        };
        assert_eq!(id(&format!("{c} a")), Some(expected));
    }
}

#[test]
fn identity_is_that_of_the_host_or_a_random_one() {
    let changes = set_hostname_id(" my host ");
    assert_eq!(changes.len(), 2);
    assert!(matches!(changes[0], IdentityAction::UnconfirmKey));
    match &changes[1] {
        IdentityAction::SetId(id) => assert_eq!(id, "my-host"),
        _ => panic!("the host's name makes an identity"),
    }
    let changes = set_hostname_id("\u{4e3b}");
    assert_eq!(changes.len(), 2);
    assert!(matches!(changes[0], IdentityAction::UnconfirmKey));
    assert!(matches!(changes[1], IdentityAction::TakeRandomId));
}
