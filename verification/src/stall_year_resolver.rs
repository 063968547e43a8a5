//! Resolves Project: Gorgon's year-less timestamp format ("Mon Apr 13 14:29")
//! into real ISO 8601 datetimes. The game logs don't include the year, so it
//! is inferred from context (the current time for live tailing, the row's
//! creation date for backfill) and year-boundary crossings are handled with a
//! monotonic walk.

use vstd::prelude::*;
use crate::calendar::{iso_datetime, month_abbrev, valid_datetime, later_than, CivilDateTime, format_datetime, local_now};
use crate::text::{words, split, parse_unsigned, chars_of, eq_str, words_of, split_char, parse_u32};

verus! {

/// Month number of a three-letter English month abbreviation.
pub open spec fn month_of(name: Seq<char>) -> Option<nat> {
    if name == "Jan"@ {
        Some(1)
    } else if name == "Feb"@ {
        Some(2)
    } else if name == "Mar"@ {
        Some(3)
    } else if name == "Apr"@ {
        Some(4)
    } else if name == "May"@ {
        Some(5)
    } else if name == "Jun"@ {
        Some(6)
    } else if name == "Jul"@ {
        Some(7)
    } else if name == "Aug"@ {
        Some(8)
    } else if name == "Sep"@ {
        Some(9)
    } else if name == "Oct"@ {
        Some(10)
    } else if name == "Nov"@ {
        Some(11)
    } else if name == "Dec"@ {
        Some(12)
    } else {
        None
    }
}

pub open spec fn u32_max() -> nat {
    u32::MAX as nat
}

/// `(month, day, hour, minute)` of a game timestamp such as
/// `"Mon Apr 13 14:29"`: the second whitespace-separated word names the
/// month, the third is the day and the fourth is `hour:minute`. The weekday
/// and anything after the fourth word are ignored.
pub open spec fn game_timestamp(ts: Seq<char>) -> Option<(nat, nat, nat, nat)> {
    let parts = words(ts);
    if parts.len() < 4 {
        None
    } else {
        match month_of(parts[1]) {
            None => None,
            Some(m) => match parse_unsigned(parts[2], u32_max()) {
                None => None,
                Some(d) => {
                    let tp = split(parts[3], ':');
                    if tp.len() != 2 {
                        None
                    } else {
                        match (parse_unsigned(tp[0], u32_max()), parse_unsigned(tp[1], u32_max())) {
                            (Some(h), Some(mi)) => Some((m, d, h, mi)),
                            _ => None,
                        }
                    }
                },
            },
        }
    }
}

fn month_number(name: &[char]) -> (r: Option<u32>)
    ensures
        r matches Some(m) ==> month_of(name@) == Some(m as nat),
        r is None ==> month_of(name@) is None,
{
    if eq_str(name, "Jan") {
        Some(1)
    } else if eq_str(name, "Feb") {
        Some(2)
    } else if eq_str(name, "Mar") {
        Some(3)
    } else if eq_str(name, "Apr") {
        Some(4)
    } else if eq_str(name, "May") {
        Some(5)
    } else if eq_str(name, "Jun") {
        Some(6)
    } else if eq_str(name, "Jul") {
        Some(7)
    } else if eq_str(name, "Aug") {
        Some(8)
    } else if eq_str(name, "Sep") {
        Some(9)
    } else if eq_str(name, "Oct") {
        Some(10)
    } else if eq_str(name, "Nov") {
        Some(11)
    } else if eq_str(name, "Dec") {
        Some(12)
    } else {
        None
    }
}

pub fn parse_game_timestamp_chars(ts: &[char]) -> (r: Option<(u32, u32, u32, u32)>)
    ensures
        r matches Some(t) ==> game_timestamp(ts@) == Some((t.0 as nat, t.1 as nat, t.2 as nat, t.3 as nat)),
        r is None ==> game_timestamp(ts@) is None,
{
    let parts = words_of(ts);
    let ghost pv = parts@.map_values(|v: Vec<char>| v@);
    if parts.len() < 4 {
        return None;
    }
    assert(pv[1] == parts@[1]@ && pv[2] == parts@[2]@ && pv[3] == parts@[3]@);
    let m = match month_number(parts[1].as_slice()) {
        Some(m) => m,
        None => return None,
    };
    let d = match parse_u32(parts[2].as_slice()) {
        Some(d) => d,
        None => return None,
    };
    let tp = split_char(parts[3].as_slice(), ':');
    let ghost tv = tp@.map_values(|v: Vec<char>| v@);
    if tp.len() != 2 {
        return None;
    }
    assert(tv[0] == tp@[0]@ && tv[1] == tp@[1]@);
    let h = parse_u32(tp[0].as_slice());
    let mi = parse_u32(tp[1].as_slice());
    match (h, mi) {
        (Some(h), Some(mi)) => Some((m, d, h, mi)),
        _ => None,
    }
}

/// Parse `"Mon Apr 13 14:29"` into `(month, day, hour, minute)`.
pub fn parse_game_timestamp(ts: &str) -> (r: Option<(u32, u32, u32, u32)>)
    ensures
        r matches Some(t) ==> game_timestamp(ts@) == Some((t.0 as nat, t.1 as nat, t.2 as nat, t.3 as nat)),
        r is None ==> game_timestamp(ts@) is None,
{
    let v = chars_of(ts);
    parse_game_timestamp_chars(v.as_slice())
}

/// The ISO text for a year and a parsed game timestamp, if chrono accepts the
/// date.
pub open spec fn iso_for(year: int, t: (nat, nat, nat, nat)) -> Option<Seq<char>> {
    iso_datetime(year, t.0, t.1, t.2, t.3, 0)
}

/// `(year, previous month)` after walking the first `k` timestamps: the year
/// goes up by one each time a parsed month is smaller than the previous
/// parsed month. Unparseable entries leave the state unchanged.
pub open spec fn walk_state(ts: Seq<Seq<char>>, base: int, k: nat) -> (int, Option<nat>)
    decreases k,
{
    if k == 0 {
        (base, None)
    } else {
        let prev = walk_state(ts, base, (k - 1) as nat);
        match game_timestamp(ts[k - 1]) {
            None => prev,
            Some(t) => {
                let year = match prev.1 {
                    Some(pm) => if t.0 < pm {
                        prev.0 + 1
                    } else {
                        prev.0
                    },
                    None => prev.0,
                };
                (year, Some(t.0))
            },
        }
    }
}

/// The resolved ISO text of entry `k`.
pub open spec fn resolved_entry(ts: Seq<Seq<char>>, base: int, k: int) -> Option<Seq<char>> {
    match game_timestamp(ts[k]) {
        None => None,
        Some(t) => iso_for(walk_state(ts, base, (k + 1) as nat).0, t),
    }
}

pub open spec fn opt_view(o: Option<String>) -> Option<Seq<char>> {
    match o {
        Some(s) => Some(s@),
        None => None,
    }
}

pub open spec fn str_views(ts: Seq<&str>) -> Seq<Seq<char>> {
    ts.map_values(|t: &str| t@)
}

proof fn lemma_walk_monotone(ts: Seq<Seq<char>>, base: int, j: nat, k: nat)
    requires
        j <= k,
    ensures
        walk_state(ts, base, j).0 <= walk_state(ts, base, k).0,
        base <= walk_state(ts, base, j).0,
    decreases k,
{
    if j < k {
        lemma_walk_monotone(ts, base, j, (k - 1) as nat);
    } else if k > 0 {
        lemma_walk_monotone(ts, base, (k - 1) as nat, (k - 1) as nat);
    }
}

/// The month of the last timestamp that parses among the first `k`.
pub open spec fn last_month(ts: Seq<Seq<char>>, k: nat) -> Option<nat>
    decreases k,
{
    if k == 0 {
        None
    } else {
        match game_timestamp(ts[k - 1]) {
            Some(t) => Some(t.0),
            None => last_month(ts, (k - 1) as nat),
        }
    }
}

/// Entry `j` parses with a month below the last parsed month before it.
pub open spec fn steps_back(ts: Seq<Seq<char>>, j: int) -> bool {
    match game_timestamp(ts[j]) {
        Some(t) => match last_month(ts, j as nat) {
            Some(pm) => t.0 < pm,
            None => false,
        },
        None => false,
    }
}

/// How many of the first `k` entries step back a month.
pub open spec fn back_steps(ts: Seq<Seq<char>>, k: nat) -> nat
    decreases k,
{
    if k == 0 {
        0
    } else {
        back_steps(ts, (k - 1) as nat) + if steps_back(ts, k - 1) {
            1nat
        } else {
            0nat
        }
    }
}

proof fn lemma_walk_counts(ts: Seq<Seq<char>>, base: int, k: nat)
    ensures
        walk_state(ts, base, k) == (base + back_steps(ts, k), last_month(ts, k)),
    decreases k,
{
    if k > 0 {
        lemma_walk_counts(ts, base, (k - 1) as nat);
    }
}

proof fn lemma_back_steps_monotone(ts: Seq<Seq<char>>, j: nat, k: nat)
    requires
        j <= k,
    ensures
        back_steps(ts, j) <= back_steps(ts, k),
    decreases k,
{
    if j < k {
        lemma_back_steps_monotone(ts, j, (k - 1) as nat);
    }
}

/// The year of a resolved entry is the base year plus the number of
/// entries up to it (unparsable ones skipped) whose month is below the
/// previous parsed month; so the years of later entries never fall below
/// those of earlier ones.
pub proof fn law_year_counts_back_steps(ts: Seq<Seq<char>>, base: int, j: int, k: int)
    requires
        0 <= j <= k < ts.len(),
    ensures
        resolved_entry(ts, base, k) == match game_timestamp(ts[k]) {
            None => None,
            Some(t) => iso_for(base + back_steps(ts, (k + 1) as nat), t),
        },
        back_steps(ts, (j + 1) as nat) <= back_steps(ts, (k + 1) as nat),
{
    lemma_walk_counts(ts, base, (k + 1) as nat);
    lemma_back_steps_monotone(ts, (j + 1) as nat, (k + 1) as nat);
}

/// Resolve a list of game timestamps (oldest first) into ISO strings.
///
/// `base_year` is the year of the oldest entry. Walking forward, a backward
/// month jump (e.g. Dec → Jan) moves to the next year so books that span a
/// year boundary resolve correctly.
pub fn resolve_timestamps_oldest_first(timestamps: &[&str], base_year: i32) -> (r: Vec<Option<String>>)
    requires
        walk_state(str_views(timestamps@), base_year as int, timestamps@.len()).0 <= i32::MAX,
    ensures
        r@.len() == timestamps@.len(),
        forall|k: int|
            0 <= k < r@.len() ==> opt_view(#[trigger] r@[k]) == resolved_entry(
                str_views(timestamps@),
                base_year as int,
                k,
            ),
{
    let ghost tv = str_views(timestamps@);
    let mut out: Vec<Option<String>> = Vec::new();
    let mut year = base_year;
    let mut prev_month: Option<u32> = None;
    let n = timestamps.len();
    let mut i: usize = 0;
    while i < n
        invariant
            i <= n == timestamps@.len() == tv.len(),
            tv == str_views(timestamps@),
            walk_state(tv, base_year as int, n as nat).0 <= i32::MAX,
            out@.len() == i,
            walk_state(tv, base_year as int, i as nat) == (year as int, match prev_month {
                Some(m) => Some(m as nat),
                None => None,
            }),
            forall|k: int|
                0 <= k < i ==> opt_view(#[trigger] out@[k]) == resolved_entry(
                    tv,
                    base_year as int,
                    k,
                ),
        decreases n - i,
    {
        let ts = chars_of(timestamps[i]);
        assert(tv[i as int] == ts@);
        match parse_game_timestamp_chars(ts.as_slice()) {
            None => {
                out.push(None);
            },
            Some((m, d, h, min)) => {
                if let Some(pm) = prev_month {
                    if m < pm {
                        proof {
                            lemma_walk_monotone(tv, base_year as int, (i + 1) as nat, n as nat);
                        }
                        year += 1;
                    }
                }
                prev_month = Some(m);
                out.push(format_datetime(year, m, d, h, min, 0));
            },
        }
        i += 1;
    }
    out
}

/// Whether the year walk over `timestamps` (oldest first) from `base_year`
/// stays within `i32`.
pub fn walk_fits(timestamps: &[&str], base_year: i32) -> (r: bool)
    ensures
        r == (walk_state(str_views(timestamps@), base_year as int, timestamps@.len()).0 <= i32::MAX),
{
    let ghost tv = str_views(timestamps@);
    let mut year = base_year;
    let mut prev_month: Option<u32> = None;
    let n = timestamps.len();
    let mut i: usize = 0;
    while i < n
        invariant
            i <= n == timestamps@.len() == tv.len(),
            tv == str_views(timestamps@),
            walk_state(tv, base_year as int, i as nat) == (year as int, match prev_month {
                Some(m) => Some(m as nat),
                None => None,
            }),
        decreases n - i,
    {
        let ts = chars_of(timestamps[i]);
        assert(tv[i as int] == ts@);
        if let Some((m, _d, _h, _min)) = parse_game_timestamp_chars(ts.as_slice()) {
            if let Some(pm) = prev_month {
                if m < pm {
                    if year == i32::MAX {
                        proof {
                            lemma_walk_monotone(tv, base_year as int, (i + 1) as nat, n as nat);
                        }
                        return false;
                    }
                    year += 1;
                }
            }
            prev_month = Some(m);
        }
        i += 1;
    }
    true
}

/// The base year (year of the oldest entry) of a live-tailed book: the
/// current year, or the year before when the oldest entry's date and time
/// would otherwise lie in the future. Entries chrono cannot place in the
/// current year keep the current year.
pub open spec fn base_year_at(oldest: Seq<char>, now: CivilDateTime) -> int {
    let year = now.year as int;
    match game_timestamp(oldest) {
        None => year,
        Some(t) => if valid_datetime(year, t.0 as int, t.1 as int, t.2 as int, t.3 as int, 0)
            && later_than(
            (year, t.0 as int, t.1 as int, t.2 as int, t.3 as int, 0),
            (
                now.year as int,
                now.month as int,
                now.day as int,
                now.hour as int,
                now.minute as int,
                now.second as int,
            ),
        ) {
            year - 1
        } else {
            year
        },
    }
}

/// Choose the base year for a live-tailed book, given the current local
/// date and time.
pub fn base_year_for_live_at(oldest_ts: &str, now: CivilDateTime) -> (r: i32)
    requires
        now.wf(),
    ensures
        r as int == base_year_at(oldest_ts@, now),
{
    let year = now.year;
    let v = chars_of(oldest_ts);
    let Some((m, d, h, min)) = parse_game_timestamp_chars(v.as_slice()) else {
        return year;
    };
    if format_datetime(year, m, d, h, min, 0).is_none() {
        return year;
    }
    let later = year > now.year || (year == now.year && (m > now.month || (m == now.month && (d
        > now.day || (d == now.day && (h > now.hour || (h == now.hour && (min > now.minute || (
    min == now.minute && 0 > now.second)))))))));
    if later {
        year - 1
    } else {
        year
    }
}

/// Choose the base year for a live-tailed book, using the current local
/// time. Whatever the clock says, the result is the base year for some
/// valid local date and time.
pub fn base_year_for_live(oldest_ts: &str) -> (r: i32)
    ensures
        exists|now: CivilDateTime| now.wf() && r as int == base_year_at(oldest_ts@, now),
{
    let now = local_now();
    base_year_for_live_at(oldest_ts, now)
}

/// The year of a backfilled row: the row's creation year, or the year before
/// when the event's (month, day) lies after the creation (month, day).
pub open spec fn backfill_spec(event: Seq<char>, cy: int, cm: nat, cd: nat) -> Option<Seq<char>> {
    match game_timestamp(event) {
        None => None,
        Some(t) => {
            let year = if t.0 > cm || (t.0 == cm && t.1 > cd) {
                cy - 1
            } else {
                cy
            };
            iso_for(year, t)
        },
    }
}

/// For backfill: infer the year of a single row from its `created_at`.
/// Events are never in the future at insert time, so if the parsed
/// (month, day) is later in the year than `created_at`, it must be from the
/// previous year.
pub fn backfill_year(event_timestamp: &str, created_year: i32, created_month: u32, created_day: u32) -> (r: Option<String>)
    requires
        game_timestamp(event_timestamp@) matches Some(t) && (t.0 > created_month || (t.0
            == created_month && t.1 > created_day)) ==> created_year > i32::MIN,
    ensures
        opt_view(r) == backfill_spec(
            event_timestamp@,
            created_year as int,
            created_month as nat,
            created_day as nat,
        ),
{
    let v = chars_of(event_timestamp);
    let (m, d, h, min) = match parse_game_timestamp_chars(v.as_slice()) {
        Some(t) => t,
        None => return None,
    };
    let year = if m > created_month || (m == created_month && d > created_day) {
        created_year - 1
    } else {
        created_year
    };
    format_datetime(year, m, d, h, min, 0)
}

/// `(y, m, d)` comes no later than `(y2, m2, d2)` in calendar order.
pub open spec fn day_le(a: (int, int, int), b: (int, int, int)) -> bool {
    a.0 < b.0 || (a.0 == b.0 && (a.1 < b.1 || (a.1 == b.1 && a.2 <= b.2)))
}

/// A backfilled event never lies after the day its row was created, and
/// takes the latest year that keeps it so: the year `y` with the event's
/// (month, day) in `y` on or before the creation date and in `y + 1`
/// after it. An event on the creation day itself keeps the creation year.
pub proof fn law_backfill_latest_year_not_after_creation(
    event: Seq<char>,
    cy: int,
    cm: nat,
    cd: nat,
    y: int,
    t: (nat, nat, nat, nat),
)
    requires
        game_timestamp(event) == Some(t),
        day_le((y, t.0 as int, t.1 as int), (cy, cm as int, cd as int)),
        !day_le((y + 1, t.0 as int, t.1 as int), (cy, cm as int, cd as int)),
    ensures
        backfill_spec(event, cy, cm, cd) == iso_datetime(y, t.0, t.1, t.2, t.3, 0),
        y == cy || y == cy - 1,
        (t.0 == cm && t.1 == cd) ==> y == cy,
{
}

/// The month names of a game timestamp, `Jan` to `Dec`, are the months 1
/// to 12 in calendar order, and no other text names a month.
pub proof fn law_month_names_in_calendar_order(name: Seq<char>, m: int)
    ensures
        1 <= m <= 12 ==> month_of(month_abbrev(m)) == Some(m as nat),
        month_of(name) matches Some(k) ==> 1 <= k <= 12 && name == month_abbrev(k as int),
{
    reveal_strlit("Jan");
    reveal_strlit("Feb");
    reveal_strlit("Mar");
    reveal_strlit("Apr");
    reveal_strlit("May");
    reveal_strlit("Jun");
    reveal_strlit("Jul");
    reveal_strlit("Aug");
    reveal_strlit("Sep");
    reveal_strlit("Oct");
    reveal_strlit("Nov");
    reveal_strlit("Dec");
    assert("Jan"@ =~= seq!['J', 'a', 'n']);
    assert("Feb"@ =~= seq!['F', 'e', 'b']);
    assert("Mar"@ =~= seq!['M', 'a', 'r']);
    assert("Apr"@ =~= seq!['A', 'p', 'r']);
    assert("May"@ =~= seq!['M', 'a', 'y']);
    assert("Jun"@ =~= seq!['J', 'u', 'n']);
    assert("Jul"@ =~= seq!['J', 'u', 'l']);
    assert("Aug"@ =~= seq!['A', 'u', 'g']);
    assert("Sep"@ =~= seq!['S', 'e', 'p']);
    assert("Oct"@ =~= seq!['O', 'c', 't']);
    assert("Nov"@ =~= seq!['N', 'o', 'v']);
    assert("Dec"@ =~= seq!['D', 'e', 'c']);
}

/// The month of a parsed game timestamp is the calendar number of its
/// month name (the second word).
pub proof fn law_timestamp_month_is_calendar_month(ts: Seq<char>)
    ensures
        game_timestamp(ts) matches Some(t) ==> 1 <= t.0 <= 12 && words(ts)[1] == month_abbrev(
            t.0 as int,
        ),
{
    if words(ts).len() >= 4 {
        law_month_names_in_calendar_order(words(ts)[1], 1);
    }
}

} // verus!
