use internal_api::date::LocalDate;
use internal_api::password::{
    daily_password, password_from_digest, rotation_due, ServerState,
    PASSWORD_DATE_CHECK_SECS, PASSWORD_LENGTH,
};

fn date(year: i32, month: u32, day: u32) -> LocalDate {
    match LocalDate::new(year, month, day) {
        Some(date) => date,
        None => panic!("no such day"),
    }
}

#[test]
fn lengths_and_spans() {
    assert_eq!(PASSWORD_LENGTH, 10);
    assert_eq!(PASSWORD_DATE_CHECK_SECS, 30);
}

#[test]
fn texts_of_dates() {
    assert_eq!(date(2024, 2, 29).as_str(), "2024-02-29");
    assert_eq!(date(7, 11, 5).as_str(), "0007-11-05");
    assert_eq!(date(0, 1, 1).as_str(), "0000-01-01");
    assert_eq!(date(9999, 12, 31).as_str(), "9999-12-31");
    assert_eq!(date(10000, 1, 1).as_str(), "+10000-01-01");
    assert_eq!(date(-1, 1, 1).as_str(), "-0001-01-01");
    assert_eq!(date(-4, 2, 29).as_str(), "-0004-02-29");
    assert_eq!(date(262142, 12, 31).as_str(), "+262142-12-31");
    assert_eq!(date(-262143, 1, 1).as_str(), "-262143-01-01");
}

#[test]
fn days_that_do_not_exist() {
    for (year, month, day) in [
        (2023, 2, 29),
        (1900, 2, 29),
        (2024, 2, 30),
        (2024, 4, 31),
        (2024, 6, 31),
        (2024, 9, 31),
        (2024, 11, 31),
        (2024, 1, 32),
        (2024, 13, 1),
        (2024, 0, 1),
        (2024, 1, 0),
        (262143, 1, 1),
        (-262144, 12, 31),
        (i32::MAX, u32::MAX, u32::MAX),
    ] {
        assert!(LocalDate::new(year, month, day).is_none());
    }
    assert!(LocalDate::new(2000, 2, 29).is_some());
}

#[test]
fn every_day_of_a_leap_cycle_is_there_and_no_other() {
    for year in 1996..2005i32 {
        let leap = year % 4 == 0;
        let days = [31, if leap { 29 } else { 28 }, 31, 30, 31, 30, 31, 31, 30, 31, 30, 31];
        for month in 1..=12u32 {
            for day in 0..40u32 {
                let there = day >= 1 && day <= days[month as usize - 1];
                match LocalDate::new(year, month, day) {
                    Some(date) => {
                        assert!(there);
                        assert_eq!(date.as_str(), format!("{year:04}-{month:02}-{day:02}"));
                    }
                    None => assert!(!there),
                }
            }
        }
    }
}

#[test]
fn password_of_a_day() {
    assert_eq!(daily_password(&date(2024, 2, 29), "host-1"), "0fe5f1f252");
    assert_eq!(daily_password(&date(2024, 3, 1), "host-1"), "69d099fdc3");
    assert_eq!(daily_password(&date(2025, 1, 2), ""), "6e8775e557");
}

#[test]
fn password_from_the_first_bytes_of_a_digest() {
    assert_eq!(
        password_from_digest(&[0x00, 0x0f, 0xa0, 0x9b, 0xff, 0x11, 0x22]),
        "000fa09bff"
    );
    assert_eq!(password_from_digest(&[0x01, 0x23, 0x45, 0x67, 0x89]), "0123456789");
    assert_eq!(password_from_digest(&[0xde, 0xad]), "dead");
    assert_eq!(password_from_digest(&[]), "");
}

#[test]
fn rotation_is_due_on_another_day_or_without_a_password() {
    let today = date(2024, 3, 1);
    assert!(rotation_due(&None, &today));
    assert!(rotation_due(&Some(date(2024, 2, 29)), &today));
    assert!(rotation_due(&Some(date(2024, 1, 3)), &today));
    assert!(!rotation_due(&Some(date(2024, 3, 1)), &today));
}

#[test]
fn password_is_known_once_the_server_is_ready() {
    let mut state = ServerState::new();
    assert_eq!(state.current_password(), None);
    let kept = state.set_daily_server_password(true, "0123abcdef".to_string(), date(2024, 3, 1));
    match kept {
        Some(date) => assert_eq!(date.as_str(), "2024-03-01"),
        None => panic!("the password was stored"),
    }
    assert_eq!(state.current_password(), None);
    state.set_ready();
    assert_eq!(state.current_password(), Some("0123abcdef".to_string()));
}

#[test]
fn ready_server_without_a_password_knows_none() {
    let mut state = ServerState::new();
    state.set_ready();
    assert_eq!(state.current_password(), None);
}

#[test]
fn password_that_could_not_be_stored_is_not_taken_over() {
    let mut state = ServerState::new();
    state.set_ready();
    state.set_daily_server_password(true, "aaaaaaaaaa".to_string(), date(2024, 2, 29));
    let kept = state.set_daily_server_password(false, "bbbbbbbbbb".to_string(), date(2024, 3, 1));
    assert!(kept.is_none());
    assert_eq!(state.current_password(), Some("aaaaaaaaaa".to_string()));
    assert!(rotation_due(&kept, &date(2024, 3, 1)));
}

#[test]
fn account_of_the_server() {
    let mut state = ServerState::new();
    assert!(state.server_account("host-1".to_string(), 3).is_none());
    state.set_ready();
    assert!(state.server_account("host-1".to_string(), 3).is_none());
    state.set_daily_server_password(true, "0123abcdef".to_string(), date(2024, 3, 1));
    match state.server_account("host-1".to_string(), 3) {
        Some(account) => {
            assert_eq!(account.rd_id, "host-1");
            assert_eq!(account.rd_pwd, "0123abcdef");
            assert_eq!(account.user_num, 3);
        }
        None => panic!("the password is known"),
    }
}
