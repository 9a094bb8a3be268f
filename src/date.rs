//! Calendar dates without time of day, and their `YYYY-MM-DD` text form.
use vstd::prelude::*;
use vstd::string::StrSliceExecFns;
use vstd::string::StringExecFns;

verus! {

/// A calendar date: a year, a month (1 to 12) and a day of that month.
#[derive(Clone, Copy, Debug, PartialEq, Eq, Structural)]
pub struct CalendarDate {
    pub year: i32,
    pub month: u8,
    pub day: u8,
}

pub open spec fn is_leap_year(y: int) -> bool {
    y % 4 == 0 && (y % 100 != 0 || y % 400 == 0)
}

pub open spec fn days_in_month(y: int, m: int) -> int {
    if m == 2 {
        if is_leap_year(y) {
            29
        } else {
            28
        }
    } else if m == 4 || m == 6 || m == 9 || m == 11 {
        30
    } else {
        31
    }
}

/// The year, month and day name a day of the proleptic Gregorian calendar.
pub open spec fn valid_ymd(y: int, m: int, d: int) -> bool {
    1 <= m <= 12 && 1 <= d <= days_in_month(y, m)
}

impl CalendarDate {
    /// A date that the four-digit text form can write.
    pub open spec fn wf(self) -> bool {
        0 <= self.year <= 9999 && valid_ymd(self.year as int, self.month as int, self.day as int)
    }

    /// Dates compare as this number does.
    pub open spec fn key(self) -> int {
        self.year as int * 10000 + self.month as int * 100 + self.day as int
    }

    /// The number that orders dates: later dates have larger keys.
    pub fn sort_key(&self) -> (r: i64)
        ensures
            r as int == self.key(),
    {
        self.year as i64 * 10000 + self.month as i64 * 100 + self.day as i64
    }
}

/// Relies on time::Date::from_calendar_date (with time::Month's TryFrom<u8> to
/// build its month argument): a date exists exactly when the month is 1 to 12
/// and the day is 1 to the month's length, for any year from -9999 to 9999.
#[verifier::external_body]
fn calendar_date_exists(year: i32, month: u8, day: u8) -> (r: bool)
    requires
        0 <= year <= 9999,
    ensures
        r == valid_ymd(year as int, month as int, day as int),
{
    match time::Month::try_from(month) {
        Ok(m) => time::Date::from_calendar_date(year, m, day).is_ok(),
        Err(_) => false,
    }
}

pub open spec fn is_digit(c: char) -> bool {
    '0' <= c && c <= '9'
}

pub open spec fn digit_value(c: char) -> int {
    c as int - '0' as int
}

pub open spec fn digit_char(n: int) -> char {
    if n == 0 {
        '0'
    } else if n == 1 {
        '1'
    } else if n == 2 {
        '2'
    } else if n == 3 {
        '3'
    } else if n == 4 {
        '4'
    } else if n == 5 {
        '5'
    } else if n == 6 {
        '6'
    } else if n == 7 {
        '7'
    } else if n == 8 {
        '8'
    } else {
        '9'
    }
}

/// The text form of a date: `YYYY-MM-DD`, each field padded with zeros.
pub open spec fn date_text(d: CalendarDate) -> Seq<char> {
    let y = d.year as int;
    let m = d.month as int;
    let dd = d.day as int;
    seq![
        digit_char(y / 1000),
        digit_char((y / 100) % 10),
        digit_char((y / 10) % 10),
        digit_char(y % 10),
        '-',
        digit_char(m / 10),
        digit_char(m % 10),
        '-',
        digit_char(dd / 10),
        digit_char(dd % 10),
    ]
}

pub open spec fn has_date_shape(s: Seq<char>) -> bool {
    &&& s.len() == 10
    &&& is_digit(s[0]) && is_digit(s[1]) && is_digit(s[2]) && is_digit(s[3])
    &&& s[4] == '-'
    &&& is_digit(s[5]) && is_digit(s[6])
    &&& s[7] == '-'
    &&& is_digit(s[8]) && is_digit(s[9])
}

pub open spec fn text_year(s: Seq<char>) -> int {
    digit_value(s[0]) * 1000 + digit_value(s[1]) * 100 + digit_value(s[2]) * 10 + digit_value(s[3])
}

pub open spec fn text_month(s: Seq<char>) -> int {
    digit_value(s[5]) * 10 + digit_value(s[6])
}

pub open spec fn text_day(s: Seq<char>) -> int {
    digit_value(s[8]) * 10 + digit_value(s[9])
}

/// The date that a text names: `YYYY-MM-DD` with ten characters exactly and
/// a day that exists; nothing otherwise.
pub open spec fn parse_date_text(s: Seq<char>) -> Option<CalendarDate> {
    if has_date_shape(s) && valid_ymd(text_year(s), text_month(s), text_day(s)) {
        Some(
            CalendarDate {
                year: text_year(s) as i32,
                month: text_month(s) as u8,
                day: text_day(s) as u8,
            },
        )
    } else {
        None
    }
}

fn digit_at(s: &str, i: usize) -> (r: Option<u8>)
    requires
        i < s@.len(),
    ensures
        is_digit(s@[i as int]) <==> r.is_some(),
        r matches Some(v) ==> v as int == digit_value(s@[i as int]) && v <= 9,
{
    let c = s.get_char(i);
    if '0' <= c && c <= '9' {
        Some(((c as u32) - ('0' as u32)) as u8)
    } else {
        None
    }
}

/// Reads a date in the form `YYYY-MM-DD`.
pub fn parse_date(s: &str) -> (r: Option<CalendarDate>)
    ensures
        r == parse_date_text(s@),
        r matches Some(d) ==> d.wf(),
{
    if s.unicode_len() != 10 {
        return None;
    }
    let c4 = s.get_char(4);
    let c7 = s.get_char(7);
    if c4 != '-' || c7 != '-' {
        return None;
    }
    let y0 = match digit_at(s, 0) { Some(v) => v, None => return None };
    let y1 = match digit_at(s, 1) { Some(v) => v, None => return None };
    let y2 = match digit_at(s, 2) { Some(v) => v, None => return None };
    let y3 = match digit_at(s, 3) { Some(v) => v, None => return None };
    let m0 = match digit_at(s, 5) { Some(v) => v, None => return None };
    let m1 = match digit_at(s, 6) { Some(v) => v, None => return None };
    let d0 = match digit_at(s, 8) { Some(v) => v, None => return None };
    let d1 = match digit_at(s, 9) { Some(v) => v, None => return None };
    let year: i32 = y0 as i32 * 1000 + y1 as i32 * 100 + y2 as i32 * 10 + y3 as i32;
    let month: u8 = m0 * 10 + m1;
    let day: u8 = d0 * 10 + d1;
    if calendar_date_exists(year, month, day) {
        Some(CalendarDate { year, month, day })
    } else {
        None
    }
}

fn push_digit(s: &mut String, n: u8)
    requires
        n <= 9,
    ensures
        final(s)@ == old(s)@.push(digit_char(n as int)),
{
    let t: &str = match n {
        0 => "0",
        1 => "1",
        2 => "2",
        3 => "3",
        4 => "4",
        5 => "5",
        6 => "6",
        7 => "7",
        8 => "8",
        _ => "9",
    };
    proof {
        reveal_strlit("0");
        reveal_strlit("1");
        reveal_strlit("2");
        reveal_strlit("3");
        reveal_strlit("4");
        reveal_strlit("5");
        reveal_strlit("6");
        reveal_strlit("7");
        reveal_strlit("8");
        reveal_strlit("9");
    }
    s.append(t);
}

fn push_dash(s: &mut String)
    ensures
        final(s)@ == old(s)@.push('-'),
{
    proof {
        reveal_strlit("-");
    }
    s.append("-");
}

/// Writes a date in the form `YYYY-MM-DD`.
pub fn format_date(d: &CalendarDate) -> (r: String)
    requires
        d.wf(),
    ensures
        r@ == date_text(*d),
{
    let y = d.year as u32;
    let mut s = String::new();
    push_digit(&mut s, (y / 1000) as u8);
    push_digit(&mut s, ((y / 100) % 10) as u8);
    push_digit(&mut s, ((y / 10) % 10) as u8);
    push_digit(&mut s, (y % 10) as u8);
    push_dash(&mut s);
    push_digit(&mut s, d.month / 10);
    push_digit(&mut s, d.month % 10);
    push_dash(&mut s);
    push_digit(&mut s, d.day / 10);
    push_digit(&mut s, d.day % 10);
    assert(s@ =~= date_text(*d));
    s
}

proof fn lemma_digit_char(n: int)
    requires
        0 <= n <= 9,
    ensures
        is_digit(digit_char(n)),
        digit_value(digit_char(n)) == n,
{
}

proof fn lemma_digit_value(c: char)
    requires
        is_digit(c),
    ensures
        digit_char(digit_value(c)) == c,
{
}

/// Writing a valid date and reading the text back gives the same date.
pub proof fn lemma_date_round_trip(d: CalendarDate)
    requires
        d.wf(),
    ensures
        parse_date_text(date_text(d)) == Some(d),
{
    let y = d.year as int;
    let m = d.month as int;
    let dd = d.day as int;
    let s = date_text(d);
    lemma_digit_char(y / 1000);
    lemma_digit_char((y / 100) % 10);
    lemma_digit_char((y / 10) % 10);
    lemma_digit_char(y % 10);
    lemma_digit_char(m / 10);
    lemma_digit_char(m % 10);
    lemma_digit_char(dd / 10);
    lemma_digit_char(dd % 10);
    assert(text_year(s) == y);
    assert(text_month(s) == m);
    assert(text_day(s) == dd);
}

proof fn lemma_two_digits(a: int, b: int)
    requires
        0 <= a <= 9,
        0 <= b <= 9,
    ensures
        (a * 10 + b) / 10 == a,
        (a * 10 + b) % 10 == b,
{
}

proof fn lemma_four_digits(a: int, b: int, c: int, e: int)
    requires
        0 <= a <= 9,
        0 <= b <= 9,
        0 <= c <= 9,
        0 <= e <= 9,
    ensures
        (a * 1000 + b * 100 + c * 10 + e) / 1000 == a,
        ((a * 1000 + b * 100 + c * 10 + e) / 100) % 10 == b,
        ((a * 1000 + b * 100 + c * 10 + e) / 10) % 10 == c,
        (a * 1000 + b * 100 + c * 10 + e) % 10 == e,
{
}

/// A text that reads as a date is exactly that date's written form: reading
/// accepts one spelling of each date.
pub proof fn lemma_date_text_canonical(s: Seq<char>)
    requires
        parse_date_text(s) is Some,
    ensures
        date_text(parse_date_text(s).unwrap()) == s,
{
    let d = parse_date_text(s).unwrap();
    lemma_digit_value(s[0]);
    lemma_digit_value(s[1]);
    lemma_digit_value(s[2]);
    lemma_digit_value(s[3]);
    lemma_digit_value(s[5]);
    lemma_digit_value(s[6]);
    lemma_digit_value(s[8]);
    lemma_digit_value(s[9]);
    lemma_four_digits(
        digit_value(s[0]),
        digit_value(s[1]),
        digit_value(s[2]),
        digit_value(s[3]),
    );
    lemma_two_digits(digit_value(s[5]), digit_value(s[6]));
    lemma_two_digits(digit_value(s[8]), digit_value(s[9]));
    assert(d.year as int == text_year(s));
    assert(d.month as int == text_month(s));
    assert(d.day as int == text_day(s));
    let t = date_text(d);
    assert(t =~= s);
}

} // verus!
