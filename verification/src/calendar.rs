//! Calendar facts and the chrono calls the timestamp code relies on.

use vstd::prelude::*;
use chrono::{Datelike, Timelike};

verus! {

/// Smallest year chrono's `NaiveDate` accepts.
pub open spec fn min_year() -> int {
    -262143
}

/// Largest year chrono's `NaiveDate` accepts.
pub open spec fn max_year() -> int {
    262142
}

pub open spec fn is_leap_year(y: int) -> bool {
    (y % 4 == 0 && y % 100 != 0) || y % 400 == 0
}

pub open spec fn days_in_month(y: int, m: int) -> int {
    if m == 2 {
        if is_leap_year(y) {
            29
        } else {
            28
        }
    } else if m == 4 || m == 6 || m == 9 || m == 11 {
        30
    } else {
        31
    }
}

/// A calendar date chrono can represent.
pub open spec fn valid_date(y: int, m: int, d: int) -> bool {
    &&& min_year() <= y <= max_year()
    &&& 1 <= m <= 12
    &&& 1 <= d <= days_in_month(y, m)
}

/// A date and time of day chrono can represent (whole seconds).
pub open spec fn valid_datetime(y: int, m: int, d: int, h: int, mi: int, s: int) -> bool {
    valid_date(y, m, d) && 0 <= h < 24 && 0 <= mi < 60 && 0 <= s < 60
}

/// The decimal digits of `n`, without leading zeros (`"0"` for zero).
pub open spec fn dec(n: nat) -> Seq<char>
    decreases n,
{
    if n < 10 {
        seq![digit_char(n)]
    } else {
        dec(n / 10).push(digit_char(n % 10))
    }
}

pub open spec fn digit_char(n: nat) -> char {
    if n == 0 {
        '0'
    } else if n == 1 {
        '1'
    } else if n == 2 {
        '2'
    } else if n == 3 {
        '3'
    } else if n == 4 {
        '4'
    } else if n == 5 {
        '5'
    } else if n == 6 {
        '6'
    } else if n == 7 {
        '7'
    } else if n == 8 {
        '8'
    } else {
        '9'
    }
}

/// `s` left-padded with `'0'` to at least `w` characters.
pub open spec fn zero_pad(s: Seq<char>, w: nat) -> Seq<char> {
    if s.len() >= w {
        s
    } else {
        Seq::new((w - s.len()) as nat, |i: int| '0') + s
    }
}

/// chrono's `%Y`: four zero-padded digits for years 0..=9999, otherwise an
/// explicit sign followed by at least four digits.
pub open spec fn year_text(y: int) -> Seq<char> {
    if 0 <= y <= 9999 {
        zero_pad(dec(y as nat), 4)
    } else if y < 0 {
        seq!['-'] + zero_pad(dec((-y) as nat), 4)
    } else {
        seq!['+'] + zero_pad(dec(y as nat), 4)
    }
}

/// Two zero-padded digits (chrono's `%m`, `%d`, `%H`, `%M`, `%S`).
pub open spec fn two(n: nat) -> Seq<char> {
    zero_pad(dec(n), 2)
}

/// `"%Y-%m-%d %H:%M:%S"`.
pub open spec fn iso_text(y: int, m: nat, d: nat, h: nat, mi: nat, s: nat) -> Seq<char> {
    year_text(y) + seq!['-'] + two(m) + seq!['-'] + two(d) + seq![' '] + two(h) + seq![':']
        + two(mi) + seq![':'] + two(s)
}

/// What `NaiveDate::from_ymd_opt(y, m, d)?.and_hms_opt(h, mi, s)?` formatted
/// with `"%Y-%m-%d %H:%M:%S"` gives.
pub open spec fn iso_datetime(y: int, m: nat, d: nat, h: nat, mi: nat, s: nat) -> Option<
    Seq<char>,
> {
    if valid_datetime(y, m as int, d as int, h as int, mi as int, s as int) {
        Some(iso_text(y, m, d, h, mi, s))
    } else {
        None
    }
}

/// chrono: `NaiveDate::from_ymd_opt`, `NaiveDate::and_hms_opt` and
/// `format("%Y-%m-%d %H:%M:%S")`. The contract claims that chrono accepts
/// exactly the valid calendar dates and times of day in its year range, and
/// renders them as `iso_text`.
#[verifier::external_body]
pub(crate) fn format_datetime(y: i32, m: u32, d: u32, h: u32, mi: u32, s: u32) -> (r: Option<String>)
    ensures
        r matches Some(t) ==> iso_datetime(y as int, m as nat, d as nat, h as nat, mi as nat, s as nat) == Some(t@),
        r is None ==> iso_datetime(y as int, m as nat, d as nat, h as nat, mi as nat, s as nat) is None,
{
    let date = chrono::NaiveDate::from_ymd_opt(y, m, d)?;
    let dt = date.and_hms_opt(h, mi, s)?;
    Some(dt.format("%Y-%m-%d %H:%M:%S").to_string())
}

/// A local date and time of day, in whole seconds.
#[derive(Clone, Copy, Debug, PartialEq, Eq)]
pub struct CivilDateTime {
    pub year: i32,
    pub month: u32,
    pub day: u32,
    pub hour: u32,
    pub minute: u32,
    pub second: u32,
}

impl CivilDateTime {
    pub open spec fn wf(self) -> bool {
        valid_datetime(
            self.year as int,
            self.month as int,
            self.day as int,
            self.hour as int,
            self.minute as int,
            self.second as int,
        )
    }
}

/// `(y1, m1, d1, h1, mi1, s1) > (y2, m2, d2, h2, mi2, s2)` lexicographically.
pub open spec fn later_than(a: (int, int, int, int, int, int), b: (int, int, int, int, int, int)) -> bool {
    ||| a.0 > b.0
    ||| a.0 == b.0 && a.1 > b.1
    ||| a.0 == b.0 && a.1 == b.1 && a.2 > b.2
    ||| a.0 == b.0 && a.1 == b.1 && a.2 == b.2 && a.3 > b.3
    ||| a.0 == b.0 && a.1 == b.1 && a.2 == b.2 && a.3 == b.3 && a.4 > b.4
    ||| a.0 == b.0 && a.1 == b.1 && a.2 == b.2 && a.3 == b.3 && a.4 == b.4 && a.5 > b.5
}

/// chrono: `Local::now().naive_local()`, truncated to whole seconds. Only
/// validity is claimed; the value depends on the clock.
#[verifier::external_body]
pub(crate) fn local_now() -> (r: CivilDateTime)
    ensures
        r.wf(),
{
    let now = chrono::Local::now().naive_local();
    CivilDateTime {
        year: now.year(),
        month: now.month(),
        day: now.day(),
        hour: now.hour(),
        minute: now.minute(),
        second: now.second(),
    }
}

/// Rust's `{}` for a signed integer: a `-` sign for negatives, no padding.
pub open spec fn int_text(n: int) -> Seq<char> {
    if n < 0 {
        seq!['-'] + dec((-n) as nat)
    } else {
        dec(n as nat)
    }
}

/// chrono's `%b` in English.
pub open spec fn month_abbrev(m: int) -> Seq<char> {
    if m == 1 {
        seq!['J', 'a', 'n']
    } else if m == 2 {
        seq!['F', 'e', 'b']
    } else if m == 3 {
        seq!['M', 'a', 'r']
    } else if m == 4 {
        seq!['A', 'p', 'r']
    } else if m == 5 {
        seq!['M', 'a', 'y']
    } else if m == 6 {
        seq!['J', 'u', 'n']
    } else if m == 7 {
        seq!['J', 'u', 'l']
    } else if m == 8 {
        seq!['A', 'u', 'g']
    } else if m == 9 {
        seq!['S', 'e', 'p']
    } else if m == 10 {
        seq!['O', 'c', 't']
    } else if m == 11 {
        seq!['N', 'o', 'v']
    } else {
        seq!['D', 'e', 'c']
    }
}

/// The date patterns the aggregations format with.
pub open spec fn known_date_pattern(p: Seq<char>) -> bool {
    ||| p == "%Y-%m-%d"@
    ||| p == "%Y-%m"@
    ||| p == "%b %-d"@
    ||| p == "%b %-d %Y"@
    ||| p == "%b %Y"@
}

/// What chrono renders for the date `(y, m, d)` under one of the known
/// patterns (`%-d` is the day without padding).
pub open spec fn date_text(y: int, m: int, d: int, p: Seq<char>) -> Seq<char> {
    if p == "%Y-%m-%d"@ {
        year_text(y) + seq!['-'] + two(m as nat) + seq!['-'] + two(d as nat)
    } else if p == "%Y-%m"@ {
        year_text(y) + seq!['-'] + two(m as nat)
    } else if p == "%b %-d"@ {
        month_abbrev(m) + seq![' '] + dec(d as nat)
    } else if p == "%b %-d %Y"@ {
        month_abbrev(m) + seq![' '] + dec(d as nat) + seq![' '] + year_text(y)
    } else {
        month_abbrev(m) + seq![' '] + year_text(y)
    }
}

/// chrono: `NaiveDate::from_ymd_opt(y, m, d)` formatted with `pattern`. The
/// contract claims that a valid date renders as `date_text` under each of
/// the known patterns.
#[verifier::external_body]
pub(crate) fn format_date(y: i32, m: u32, d: u32, pattern: &str) -> (r: String)
    requires
        valid_date(y as int, m as int, d as int),
        known_date_pattern(pattern@),
    ensures
        r@ == date_text(y as int, m as int, d as int, pattern@),
{
    chrono::NaiveDate::from_ymd_opt(y, m, d).unwrap().format(pattern).to_string()
}

/// The epoch second and the date of a `%Y-%m-%d %H:%M:%S` text, when it
/// parses.
pub uninterp spec fn naive_datetime_parts(s: Seq<char>) -> Option<(i64, i32, u32, u32)>;

/// chrono: `NaiveDateTime::parse_from_str(s, "%Y-%m-%d %H:%M:%S")`, read as
/// the second of the epoch (`and_utc().timestamp()`) and the calendar date.
/// The result is named `naive_datetime_parts` (the parse depends on the text
/// alone); the one further claim is that a parsed date is a valid date.
#[verifier::external_body]
pub(crate) fn parse_naive_datetime(s: &str) -> (r: Option<(i64, i32, u32, u32)>)
    ensures
        r == naive_datetime_parts(s@),
        r matches Some(p) ==> valid_date(p.1 as int, p.2 as int, p.3 as int),
{
    match chrono::NaiveDateTime::parse_from_str(s, "%Y-%m-%d %H:%M:%S") {
        Ok(dt) => Some((dt.and_utc().timestamp(), dt.year(), dt.month(), dt.day())),
        Err(_) => None,
    }
}

/// The ISO week-numbering year and week of a date.
pub uninterp spec fn iso_year_week(y: int, m: int, d: int) -> (int, int);

/// chrono: `NaiveDate::iso_week` of a valid date, read as `(year, week)`.
/// The result is named `iso_year_week`; chrono documents the week as
/// ranging over 1..=53, and its week year is the date's own year or one of
/// the two beside it (`IsoWeek::from_yof` takes `year - 1`, `year` or
/// `year + 1`).
#[verifier::external_body]
pub(crate) fn iso_week_of(y: i32, m: u32, d: u32) -> (r: (i32, u32))
    requires
        valid_date(y as int, m as int, d as int),
    ensures
        (r.0 as int, r.1 as int) == iso_year_week(y as int, m as int, d as int),
        1 <= r.1 <= 53,
        y - 1 <= r.0 <= y + 1,
{
    let w = chrono::NaiveDate::from_ymd_opt(y, m, d).unwrap().iso_week();
    (w.year(), w.week())
}

/// The Monday and the Sunday of an ISO week, when both are dates chrono
/// can hold.
pub uninterp spec fn iso_week_span(year: int, week: int) -> Option<((int, int, int), (int, int, int))>;

/// chrono: `NaiveDate::from_isoywd_opt(year, week, Weekday::Mon)` and that
/// date six days on (`checked_add_signed`). The result is named
/// `iso_week_span`; what comes back are valid dates. Where the Sunday falls
/// past chrono's last date the result is `None`. chrono steps to `year - 1`
/// or `year + 1` for the weeks that straddle a new year, so the year is held
/// within one of chrono's own range, where that step cannot overflow.
#[verifier::external_body]
pub(crate) fn iso_week_days(year: i32, week: u32) -> (r: Option<((i32, u32, u32), (i32, u32, u32))>)
    requires
        min_year() - 1 <= year <= max_year() + 1,
    ensures
        match r {
            Some(p) => iso_week_span(year as int, week as int) == Some(
                (
                    (p.0.0 as int, p.0.1 as int, p.0.2 as int),
                    (p.1.0 as int, p.1.1 as int, p.1.2 as int),
                ),
            ) && valid_date(p.0.0 as int, p.0.1 as int, p.0.2 as int) && valid_date(
                p.1.0 as int,
                p.1.1 as int,
                p.1.2 as int,
            ),
            None => iso_week_span(year as int, week as int) is None,
        },
{
    let monday = chrono::NaiveDate::from_isoywd_opt(year, week, chrono::Weekday::Mon)?;
    let sunday = monday.checked_add_signed(chrono::Duration::days(6))?;
    Some(((monday.year(), monday.month(), monday.day()), (sunday.year(), sunday.month(), sunday.day())))
}

fn digit(n: u32) -> (c: char)
    requires
        n < 10,
    ensures
        c == digit_char(n as nat),
{
    if n == 0 {
        '0'
    } else if n == 1 {
        '1'
    } else if n == 2 {
        '2'
    } else if n == 3 {
        '3'
    } else if n == 4 {
        '4'
    } else if n == 5 {
        '5'
    } else if n == 6 {
        '6'
    } else if n == 7 {
        '7'
    } else if n == 8 {
        '8'
    } else {
        '9'
    }
}

/// The text of an ISO week key: the year, `-W` and the two-digit week.
pub(crate) fn week_key(year: i32, week: u32) -> (r: String)
    requires
        week < 100,
    ensures
        r@ == int_text(year as int) + seq!['-', 'W'] + two(week as nat),
{
    let y = int_string(year);
    let yc = crate::text::chars_of(y.as_str());
    let mut v: Vec<char> = Vec::new();
    let mut i: usize = 0;
    while i < yc.len()
        invariant
            i <= yc@.len(),
            yc@ == int_text(year as int),
            v@ == yc@.take(i as int),
        decreases yc.len() - i,
    {
        v.push(yc[i]);
        i += 1;
    }
    assert(yc@.take(yc@.len() as int) =~= yc@);
    v.push('-');
    v.push('W');
    v.push(digit(week / 10));
    v.push(digit(week % 10));
    proof {
        let w = week as nat;
        if w < 10 {
            assert(dec(w) == seq![digit_char(w)]);
            assert(two(w) =~= seq!['0', digit_char(w)]);
        } else {
            assert(dec(w / 10) == seq![digit_char(w / 10)]);
            assert(dec(w) == dec(w / 10).push(digit_char(w % 10)));
            assert(two(w) =~= seq![digit_char(w / 10), digit_char(w % 10)]);
        }
        assert(v@ =~= int_text(year as int) + seq!['-', 'W'] + two(w));
    }
    crate::text::string_of(v.as_slice())
}

/// The decimal text of an `i32`, with a leading `-` when negative.
pub(crate) fn int_string(n: i32) -> (r: String)
    ensures
        r@ == int_text(n as int),
{
    let neg = n < 0;
    let mut q: u64 = if neg {
        (-(n as i64)) as u64
    } else {
        n as u64
    };
    let ghost mag: nat = if neg {
        (-(n as int)) as nat
    } else {
        n as nat
    };
    let mut digits: Vec<char> = Vec::new();
    while q >= 10
        invariant
            dec(mag) == dec(q as nat) + digits@,
        decreases q,
    {
        let d = digit((q % 10) as u32);
        proof {
            assert(dec(q as nat) == dec((q / 10) as nat).push(digit_char((q % 10) as nat)));
        }
        let ghost before = digits@;
        digits.insert(0, d);
        assert(digits@ =~= seq![d] + before);
        assert(dec(q as nat) + before =~= dec((q / 10) as nat) + digits@);
        q = q / 10;
    }
    let first = digit(q as u32);
    assert(dec(q as nat) == seq![first]);
    let mut v: Vec<char> = Vec::new();
    if neg {
        v.push('-');
    }
    v.push(first);
    let mut i: usize = 0;
    while i < digits.len()
        invariant
            i <= digits@.len(),
            v@ == (if neg {
                seq!['-']
            } else {
                Seq::<char>::empty()
            }) + seq![first] + digits@.take(i as int),
        decreases digits.len() - i,
    {
        v.push(digits[i]);
        assert(digits@.take(i + 1) =~= digits@.take(i as int).push(digits@[i as int]));
        i += 1;
    }
    assert(digits@.take(digits@.len() as int) =~= digits@);
    assert(v@ =~= int_text(n as int));
    crate::text::string_of(v.as_slice())
}

} // verus!
