//! Calendar dates and their texts.
use vstd::prelude::*;

verus! {

/// Whether a year of the Gregorian calendar, continued into the past, has a 29th of
/// February.
pub open spec fn is_leap_year(year: int) -> bool {
    year % 4 == 0 && (year % 100 != 0 || year % 400 == 0)
}

/// How many days a month has.
pub open spec fn days_in_month(year: int, month: int) -> int {
    if month == 2 {
        if is_leap_year(year) {
            29
        } else {
            28
        }
    } else if month == 4 || month == 6 || month == 9 || month == 11 {
        30
    } else {
        31
    }
}

/// Whether there is such a day, in the years that `chrono::NaiveDate` covers.
pub open spec fn is_calendar_date(year: int, month: int, day: int) -> bool {
    &&& -262143 <= year <= 262142
    &&& 1 <= month <= 12
    &&& 1 <= day <= days_in_month(year, month)
}

/// The decimal digit of `value`.
pub open spec fn digit(value: int) -> char {
    (('0' as int) + value) as char
}

/// The last `width` decimal digits of `value`.
pub open spec fn padded(value: int, width: nat) -> Seq<char>
    decreases width,
{
    if width == 0 {
        Seq::empty()
    } else {
        padded(value / 10, (width - 1) as nat).push(digit(value % 10))
    }
}

/// How many decimal digits a year's text has at least: four, or more where it needs more.
pub open spec fn year_width(year: int) -> nat {
    if -9999 <= year <= 9999 {
        4
    } else if -99999 <= year <= 99999 {
        5
    } else {
        6
    }
}

/// The text of a year: its digits, behind a sign where they are not those of a year from 0
/// to 9999.
pub open spec fn year_text(year: int) -> Seq<char> {
    if 0 <= year <= 9999 {
        padded(year, 4)
    } else if year < 0 {
        seq!['-'] + padded(-year, year_width(year))
    } else {
        seq!['+'] + padded(year, year_width(year))
    }
}

/// The text of a date: year, month and day with hyphens between them.
pub open spec fn date_text(year: int, month: int, day: int) -> Seq<char> {
    year_text(year) + seq!['-'] + padded(month, 2) + seq!['-'] + padded(day, 2)
}

/// Calls `chrono::NaiveDate::from_ymd_opt` and, on the date that it gives, the `to_string`
/// of its `Display`: the text of the date, or `None` where there is no such day.
#[verifier::external_body]
fn naive_date_text(year: i32, month: u32, day: u32) -> (text: Option<String>)
    ensures
        text is Some <==> is_calendar_date(year as int, month as int, day as int),
        text is Some ==> text->0@ == date_text(year as int, month as int, day as int),
{
    match chrono::NaiveDate::from_ymd_opt(year, month, day) {
        Some(date) => Some(date.to_string()),
        None => None,
    }
}

/// A day of the calendar.
pub struct LocalDate {
    year: i32,
    month: u32,
    day: u32,
    text: String,
}

impl View for LocalDate {
    type V = (int, int, int);

    closed spec fn view(&self) -> (int, int, int) {
        (self.year as int, self.month as int, self.day as int)
    }
}

impl LocalDate {
    #[verifier::type_invariant]
    spec fn well_formed(self) -> bool {
        &&& is_calendar_date(self@.0, self@.1, self@.2)
        &&& self.text@ == date_text(self@.0, self@.1, self@.2)
    }

    /// The day with this year, month and day of the month, if there is one.
    pub fn new(year: i32, month: u32, day: u32) -> (date: Option<LocalDate>)
        ensures
            date is Some <==> is_calendar_date(year as int, month as int, day as int),
            date is Some ==> date->0@ == (year as int, month as int, day as int),
    {
        match naive_date_text(year, month, day) {
            Some(text) => Some(LocalDate { year, month, day, text }),
            None => None,
        }
    }

    /// The text of the date.
    pub fn as_str(&self) -> (text: &str)
        ensures
            is_calendar_date(self@.0, self@.1, self@.2),
            text@ == date_text(self@.0, self@.1, self@.2),
    {
        proof {
            use_type_invariant(self);
        }
        self.text.as_str()
    }
}

proof fn lemma_digits(a: int, b: int)
    requires
        0 <= a < 10,
        0 <= b < 10,
        digit(a) == digit(b),
    ensures
        a == b,
{
}

proof fn lemma_padded_len(value: int, width: nat)
    ensures
        padded(value, width).len() == width,
    decreases width,
{
    if width > 0 {
        lemma_padded_len(value / 10, (width - 1) as nat);
    }
}

spec fn ten_to(width: nat) -> int
    decreases width,
{
    if width == 0 {
        1
    } else {
        10 * ten_to((width - 1) as nat)
    }
}

proof fn lemma_padded_injective(a: int, b: int, width: nat)
    requires
        0 <= a < ten_to(width),
        0 <= b < ten_to(width),
        padded(a, width) == padded(b, width),
    ensures
        a == b,
    decreases width,
{
    if width > 0 {
        let less = (width - 1) as nat;
        let pa = padded(a / 10, less);
        let pb = padded(b / 10, less);
        assert(pa == padded(a, width).drop_last());
        assert(pb == padded(b, width).drop_last());
        assert(digit(a % 10) == padded(a, width).last());
        assert(digit(b % 10) == padded(b, width).last());
        lemma_padded_injective(a / 10, b / 10, less);
        lemma_digits(a % 10, b % 10);
    }
}

/// Different days have different texts.
pub proof fn lemma_date_texts_differ(a: (int, int, int), b: (int, int, int))
    requires
        is_calendar_date(a.0, a.1, a.2),
        is_calendar_date(b.0, b.1, b.2),
        date_text(a.0, a.1, a.2) == date_text(b.0, b.1, b.2),
    ensures
        a == b,
{
    let ta = date_text(a.0, a.1, a.2);
    let tb = date_text(b.0, b.1, b.2);
    lemma_padded_len(a.1, 2);
    lemma_padded_len(a.2, 2);
    lemma_padded_len(b.1, 2);
    lemma_padded_len(b.2, 2);
    let n = ta.len() as int;
    assert(ta.subrange(n - 2, n) == padded(a.2, 2));
    assert(tb.subrange(n - 2, n) == padded(b.2, 2));
    assert(ta.subrange(n - 5, n - 3) == padded(a.1, 2));
    assert(tb.subrange(n - 5, n - 3) == padded(b.1, 2));
    assert(ta.subrange(0, n - 6) == year_text(a.0));
    assert(tb.subrange(0, n - 6) == year_text(b.0));
    reveal_with_fuel(ten_to, 7);
    lemma_padded_injective(a.2, b.2, 2);
    lemma_padded_injective(a.1, b.1, 2);
    lemma_year_texts_differ(a.0, b.0);
}

proof fn lemma_year_texts_differ(a: int, b: int)
    requires
        -262143 <= a <= 262142,
        -262143 <= b <= 262142,
        year_text(a) == year_text(b),
    ensures
        a == b,
{
    reveal_with_fuel(ten_to, 7);
    reveal_with_fuel(padded, 7);
    let ya = year_text(a);
    let yb = year_text(b);
    let abs_a = if a < 0 { -a } else { a };
    let abs_b = if b < 0 { -b } else { b };
    lemma_padded_len(abs_a, year_width(a));
    lemma_padded_len(abs_b, year_width(b));
    lemma_padded_len(abs_a, 4);
    lemma_padded_len(abs_b, 4);
    if 0 <= a <= 9999 {
        assert(ya[0] == digit(a / 10 / 10 / 10 % 10));
        assert(0 <= b <= 9999);
        lemma_padded_injective(a, b, 4);
    } else {
        assert(ya.subrange(1, ya.len() as int) == padded(abs_a, year_width(a)));
        if 0 <= b <= 9999 {
            assert(yb[0] == digit(b / 10 / 10 / 10 % 10));
            assert(false);
        }
        assert(yb.subrange(1, yb.len() as int) == padded(abs_b, year_width(b)));
        lemma_padded_injective(abs_a, abs_b, year_width(a));
        assert(ya[0] == if a < 0 { '-' } else { '+' });
        assert(yb[0] == if b < 0 { '-' } else { '+' });
    }
}

proof fn lemma_padded_digits(value: int, width: nat)
    ensures
        forall|i: int|
            0 <= i < padded(value, width).len() ==> '0' <= #[trigger] padded(value, width)[i]
                <= '9',
    decreases width,
{
    if width > 0 {
        let front = padded(value / 10, (width - 1) as nat);
        lemma_padded_digits(value / 10, (width - 1) as nat);
        assert forall|i: int| 0 <= i < padded(value, width).len() implies '0' <= #[trigger] padded(
            value,
            width,
        )[i] <= '9' by {
            assert(0 <= value % 10 < 10);
            if i < front.len() {
                assert(padded(value, width)[i] == front[i]);
            }
        }
    }
}

/// The text of a date holds only digits, hyphens and plus signs.
pub proof fn lemma_date_characters(year: int, month: int, day: int)
    ensures
        forall|i: int|
            0 <= i < date_text(year, month, day).len() ==> {
                let c = #[trigger] date_text(year, month, day)[i];
                '0' <= c <= '9' || c == '-' || c == '+'
            },
{
    lemma_padded_digits(year, 4);
    lemma_padded_digits(-year, year_width(year));
    lemma_padded_digits(year, year_width(year));
    lemma_padded_digits(month, 2);
    lemma_padded_digits(day, 2);
}

/// Every month has its first twenty-eight days; the last day of a month is the 31st of seven of
/// them, the 30th of four, and that of February is the 29th in the years that four divides, but
/// for those that a hundred and not four hundred divides, and else the 28th.
pub proof fn lemma_calendar_days(year: int, month: int, day: int)
    requires
        -262143 <= year <= 262142,
    ensures
        is_calendar_date(year, month, day) ==> 1 <= month <= 12 && 1 <= day <= 31,
        1 <= month <= 12 && 1 <= day <= 28 ==> is_calendar_date(year, month, day),
        is_calendar_date(year, month, 29) <==> 1 <= month <= 12 && (month != 2 || (year % 4 == 0
            && year % 100 != 0) || year % 400 == 0),
        is_calendar_date(year, month, 30) <==> 1 <= month <= 12 && month != 2,
        is_calendar_date(year, month, 31) <==> month == 1 || month == 3 || month == 5 || month == 7
            || month == 8 || month == 10 || month == 12,
{
    if year % 400 == 0 {
        assert(year % 4 == 0);
    }
}

/// The text of a date ends in the month and the day, two digits each, with a hyphen before each
/// of them; a year from 0 to 9999 stands before them in four digits, and a year before that as the
/// year after with a minus sign.
pub proof fn lemma_date_text_is_read_back(year: int, month: int, day: int)
    requires
        is_calendar_date(year, month, day),
    ensures
        ({
            let text = date_text(year, month, day);
            let n = text.len() as int;
            &&& n >= 10
            &&& text[n - 6] == '-'
            &&& text[n - 5] as int == '0' as int + month / 10
            &&& text[n - 4] as int == '0' as int + month % 10
            &&& text[n - 3] == '-'
            &&& text[n - 2] as int == '0' as int + day / 10
            &&& text[n - 1] as int == '0' as int + day % 10
            &&& 0 <= year <= 9999 ==> {
                &&& n == 10
                &&& text[0] as int == '0' as int + year / 1000
                &&& text[1] as int == '0' as int + year / 100 % 10
                &&& text[2] as int == '0' as int + year / 10 % 10
                &&& text[3] as int == '0' as int + year % 10
            }
            &&& -9999 <= year < 0 ==> text == seq!['-'] + date_text(-year, month, day)
        }),
{
    reveal_with_fuel(padded, 5);
    lemma_padded_len(year, 4);
    lemma_padded_len(-year, 4);
    lemma_padded_len(year, year_width(year));
    lemma_padded_len(-year, year_width(year));
    lemma_padded_len(month, 2);
    lemma_padded_len(day, 2);
    let text = date_text(year, month, day);
    let n = text.len() as int;
    assert(text.subrange(n - 2, n) == padded(day, 2));
    assert(text.subrange(n - 5, n - 3) == padded(month, 2));
    assert(padded(day, 2) == seq![digit(day / 10), digit(day % 10)]);
    assert(padded(month, 2) == seq![digit(month / 10), digit(month % 10)]);
    assert(text.subrange(n - 2, n)[0] == text[n - 2] && text.subrange(n - 2, n)[1] == text[n - 1]);
    assert(text.subrange(n - 5, n - 3)[0] == text[n - 5] && text.subrange(n - 5, n - 3)[1]
        == text[n - 4]);
    if 0 <= year <= 9999 {
        assert(padded(year, 4) == seq![
            digit(year / 10 / 10 / 10 % 10),
            digit(year / 10 / 10 % 10),
            digit(year / 10 % 10),
            digit(year % 10),
        ]);
        assert(text.subrange(0, 4) == padded(year, 4));
        assert(text.subrange(0, 4)[0] == text[0] && text.subrange(0, 4)[1] == text[1]
            && text.subrange(0, 4)[2] == text[2] && text.subrange(0, 4)[3] == text[3]);
    }
    if -9999 <= year < 0 {
        assert(text == seq!['-'] + date_text(-year, month, day));
    }
}

}
