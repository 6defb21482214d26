//! The server's password: a new one for each day.
use vstd::prelude::*;
use vstd::utf8::{encode_utf8, encode_utf8_decode_utf8};

use crate::account::Account;
use crate::date::LocalDate;
use crate::date::{date_text, is_calendar_date, lemma_date_characters, lemma_date_texts_differ};
use crate::text::{hex_digit, lemma_hex_digits, optional_text};

verus! {

/// How many characters a password has.
pub const PASSWORD_LENGTH: usize = 10;

/// How often, in seconds, it is checked whether the password is that of the day.
pub const PASSWORD_DATE_CHECK_SECS: u64 = 30;

/// The SHA-256 digest of a message, as `sha2::Sha256` computes it.
pub uninterp spec fn sha256(message: Seq<u8>) -> Seq<u8>;

/// Calls `digest` of `sha2::Sha256`: the digest of the message, which has 32 bytes.
#[verifier::external_body]
fn sha256_digest(message: &[u8]) -> (digest: Vec<u8>)
    ensures
        digest@ == sha256(message@),
        digest@.len() == 32,
{
    <sha2::Sha256 as sha2::Digest>::digest(message).to_vec()
}

/// Bytes in lower-case hexadecimal, two digits for each.
pub open spec fn hex_text(bytes: Seq<u8>) -> Seq<char> {
    Seq::new(
        2 * bytes.len(),
        |i: int|
            hex_digit(
                if i % 2 == 0 {
                    bytes[i / 2] as int / 16
                } else {
                    bytes[i / 2] as int % 16
                },
            ),
    )
}

/// The password that a digest gives: as many of its first bytes as the password has room
/// for, in hexadecimal.
pub open spec fn password_of_digest(digest: Seq<u8>) -> Seq<char> {
    let half = PASSWORD_LENGTH as int / 2;
    hex_text(
        if digest.len() > half {
            digest.take(half)
        } else {
            digest
        },
    )
}

/// What the password of the server with this identity on this day is made from.
pub open spec fn password_source(date: (int, int, int), id: Seq<char>) -> Seq<char> {
    date_text(date.0, date.1, date.2) + ":"@ + id
}

/// The password of the server with this identity on this day.
pub open spec fn password_of_day(date: (int, int, int), id: Seq<char>) -> Seq<char> {
    password_of_digest(sha256(encode_utf8(password_source(date, id))))
}

fn hex_character(value: u8) -> (c: char)
    requires
        value < 16,
    ensures
        c == hex_digit(value as int),
{
    if value < 10 {
        (48u8 + value) as char
    } else {
        (87u8 + value) as char
    }
}

/// The password that a digest gives.
pub fn password_from_digest(digest: &[u8]) -> (password: String)
    ensures
        password@ == password_of_digest(digest@),
        password@.len() == if digest@.len() < 5 {
            2 * digest@.len()
        } else {
            10
        },
        forall|i: int|
            0 <= i < password@.len() ==> #[trigger] password@[i] == "0123456789abcdef"@[if i % 2
                == 0 {
                digest@[i / 2] as int / 16
            } else {
                digest@[i / 2] as int % 16
            }],
{
    proof {
        lemma_password_digits(digest@);
    }
    let count: usize = if digest.len() < PASSWORD_LENGTH / 2 {
        digest.len()
    } else {
        PASSWORD_LENGTH / 2
    };
    let mut password: String = String::new();
    assert(password@ == hex_text(digest@.take(0)));
    for i in 0..count
        invariant
            count <= digest@.len(),
            password@ == hex_text(digest@.take(i as int)),
    {
        let byte: u8 = digest[i];
        password.push(hex_character(byte / 16));
        password.push(hex_character(byte % 16));
        assert(password@ == hex_text(digest@.take(i + 1)));
    }
    assert(digest@.take(digest@.len() as int) == digest@);
    password
}

/// The password of the server with this identity on this day.
pub fn daily_password(date: &LocalDate, id: &str) -> (password: String)
    ensures
        password@ == password_of_day(date@, id@),
        password@ == password_of_digest(
            sha256(encode_utf8(date_text(date@.0, date@.1, date@.2) + ":"@ + id@)),
        ),
        password@.len() == PASSWORD_LENGTH,
{
    let source: String = date.as_str().to_owned().concat(":").concat(id);
    let digest: Vec<u8> = sha256_digest(source.as_str().as_bytes());
    password_from_digest(digest.as_slice())
}

/// Whether the password has to be made anew: it is not known to be that of today.
pub fn rotation_due(password_date: &Option<LocalDate>, today: &LocalDate) -> (due: bool)
    ensures
        due == !(password_date matches Some(date) && date@ == today@),
{
    match password_date {
        Some(date) => {
            let of_password: String = date.as_str().to_owned();
            let of_today: String = today.as_str().to_owned();
            proof {
                if of_password@ == of_today@ {
                    lemma_date_texts_differ(date@, today@);
                }
            }
            of_password != of_today
        },
        None => true,
    }
}

/// What the server knows of its password.
pub struct ServerState {
    /// Whether the server has been set up.
    pub ready: bool,
    /// The password, or nothing before there is one.
    pub password: String,
}

impl ServerState {
    /// The server before it is set up.
    pub fn new() -> (state: ServerState)
        ensures
            !state.ready,
            state.password@.len() == 0,
    {
        ServerState { ready: false, password: String::new() }
    }

    /// The password, once there is one and the server is ready.
    pub open spec fn known_password(self) -> Option<Seq<char>> {
        if self.ready && self.password@.len() > 0 {
            Some(self.password@)
        } else {
            None
        }
    }

    /// The password, once there is one and the server is ready: what is reported to those
    /// who ask for the account, and what is stored again after the configuration was
    /// replaced.
    pub fn current_password(&self) -> (password: Option<String>)
        ensures
            optional_text(password) == self.known_password(),
            self.ready && self.password@.len() > 0 ==> password is Some && password->0@
                == self.password@,
            !self.ready || self.password@.len() == 0 ==> password is None,
    {
        if !self.ready {
            return None;
        }
        if self.password.as_str().is_empty() {
            return None;
        }
        Some(self.password.clone())
    }

    /// The account of the server, given its identity and the number of its live connections,
    /// if its password is known.
    pub fn server_account(&self, id: String, connections: usize) -> (account: Option<Account>)
        ensures
            match self.known_password() {
                Some(password) => account matches Some(account) && account.rd_id == id
                    && account.rd_pwd@ == password && account.user_num == connections,
                None => account is None,
            },
            self.ready && self.password@.len() > 0 ==> account is Some && account->0.rd_id
                == id && account->0.rd_pwd@ == self.password@ && account->0.user_num
                == connections,
            !self.ready || self.password@.len() == 0 ==> account is None,
    {
        match self.current_password() {
            Some(password) => Some(
                Account { rd_id: id, rd_pwd: password, user_num: connections },
            ),
            None => None,
        }
    }

    /// Marks the server as set up.
    pub fn set_ready(&mut self)
        ensures
            final(self).ready,
            final(self).password == old(self).password,
    {
        self.ready = true;
    }

    /// Takes over the password of a day, where it could be stored; gives that day then, and
    /// else leaves everything as it is.
    pub fn set_daily_server_password(
        &mut self,
        stored: bool,
        password: String,
        date: LocalDate,
    ) -> (password_date: Option<LocalDate>)
        ensures
            final(self).ready == old(self).ready,
            stored ==> final(self).password == password && password_date == Some(date),
            !stored ==> final(self).password == old(self).password && password_date is None,
            final(self).known_password() == if stored && old(self).ready && password@.len() > 0 {
                Some(password@)
            } else if stored {
                None
            } else {
                old(self).known_password()
            },
    {
        if !stored {
            return None;
        }
        self.password = password;
        Some(date)
    }
}

/// A password has the length that it should have, and only lower-case hexadecimal digits.
pub proof fn lemma_password_is_lower_hex(digest: Seq<u8>)
    requires
        digest.len() >= PASSWORD_LENGTH / 2,
    ensures
        password_of_digest(digest).len() == PASSWORD_LENGTH,
        forall|i: int|
            0 <= i < PASSWORD_LENGTH ==> {
                let c = #[trigger] password_of_digest(digest)[i];
                '0' <= c <= '9' || 'a' <= c <= 'f'
            },
{
}

/// No two days, and no two identities, share what the password is made from: the message
/// that is digested tells both.
pub proof fn lemma_source_tells_day_and_id(
    date: (int, int, int),
    id: Seq<char>,
    other_date: (int, int, int),
    other_id: Seq<char>,
)
    requires
        is_calendar_date(date.0, date.1, date.2),
        is_calendar_date(other_date.0, other_date.1, other_date.2),
        encode_utf8(password_source(date, id)) == encode_utf8(
            password_source(other_date, other_id),
        ),
    ensures
        date == other_date,
        id == other_id,
{
    let source = password_source(date, id);
    let other = password_source(other_date, other_id);
    encode_utf8_decode_utf8(source);
    encode_utf8_decode_utf8(other);
    assert(source == other);
    let day = date_text(date.0, date.1, date.2);
    let other_day = date_text(other_date.0, other_date.1, other_date.2);
    reveal_strlit(":");
    assert(":"@.len() == 1 && ":"@[0] == ':');
    lemma_date_characters(date.0, date.1, date.2);
    lemma_date_characters(other_date.0, other_date.1, other_date.2);
    assert(source[day.len() as int] == ':');
    assert(other[other_day.len() as int] == ':');
    if day.len() < other_day.len() {
        assert(other_day[day.len() as int] == ':');
    }
    if other_day.len() < day.len() {
        assert(day[other_day.len() as int] == ':');
    }
    assert(source.take(day.len() as int) == day);
    assert(other.take(day.len() as int) == other_day);
    lemma_date_texts_differ(date, other_date);
    assert(source.skip(day.len() as int + 1) == id);
    assert(other.skip(day.len() as int + 1) == other_id);
}

/// A password tells the first bytes of the digest that it was made from: two digests that
/// give the same one agree there.
pub proof fn lemma_password_tells_digest(a: Seq<u8>, b: Seq<u8>)
    requires
        a.len() >= PASSWORD_LENGTH / 2,
        b.len() >= PASSWORD_LENGTH / 2,
        password_of_digest(a) == password_of_digest(b),
    ensures
        a.take(PASSWORD_LENGTH as int / 2) == b.take(PASSWORD_LENGTH as int / 2),
{
    let half = PASSWORD_LENGTH as int / 2;
    assert(a.take(a.len() as int) == a && b.take(b.len() as int) == b);
    assert forall|k: int| 0 <= k < half implies a[k] == b[k] by {
        assert(password_of_digest(a)[2 * k] == hex_digit(a[k] as int / 16));
        assert(password_of_digest(b)[2 * k] == hex_digit(b[k] as int / 16));
        assert(password_of_digest(a)[2 * k + 1] == hex_digit(a[k] as int % 16));
        assert(password_of_digest(b)[2 * k + 1] == hex_digit(b[k] as int % 16));
    }
}

/// A password has, for each byte of the digest that it has room for, the digit of the byte's
/// higher half and then that of its lower half, and nothing else.
pub proof fn lemma_password_digits(digest: Seq<u8>)
    ensures
        password_of_digest(digest).len() == if digest.len() < 5 {
            2 * digest.len()
        } else {
            10
        },
        forall|i: int|
            0 <= i < password_of_digest(digest).len() ==> #[trigger] password_of_digest(digest)[i]
                == "0123456789abcdef"@[if i % 2 == 0 {
                digest[i / 2] as int / 16
            } else {
                digest[i / 2] as int % 16
            }],
{
    let password = password_of_digest(digest);
    assert forall|i: int| 0 <= i < password.len() implies #[trigger] password[i]
        == "0123456789abcdef"@[if i % 2 == 0 {
        digest[i / 2] as int / 16
    } else {
        digest[i / 2] as int % 16
    }] by {
        lemma_hex_digits(digest[i / 2] as int / 16);
        lemma_hex_digits(digest[i / 2] as int % 16);
    }
}

/// The password of a day comes from the digest of the whole text that the day, a colon and the
/// identity make, and no other day and no other identity makes the same text.
pub proof fn lemma_password_is_of_whole_source(
    date: (int, int, int),
    id: Seq<char>,
    other_date: (int, int, int),
    other_id: Seq<char>,
)
    requires
        is_calendar_date(date.0, date.1, date.2),
        is_calendar_date(other_date.0, other_date.1, other_date.2),
    ensures
        ({
            let message = encode_utf8(date_text(date.0, date.1, date.2) + ":"@ + id);
            let other = encode_utf8(
                date_text(other_date.0, other_date.1, other_date.2) + ":"@ + other_id,
            );
            &&& password_of_day(date, id) == password_of_digest(sha256(message))
            &&& password_of_day(other_date, other_id) == password_of_digest(sha256(other))
            &&& message == other ==> date == other_date && id == other_id
        }),
{
    if encode_utf8(password_source(date, id)) == encode_utf8(
        password_source(other_date, other_id),
    ) {
        lemma_source_tells_day_and_id(date, id, other_date, other_id);
    }
}

}
