//! The stall tracker's inventory window: the distinct days with activity,
//! newest first, and whether an event falls in the chosen number of most
//! recent active days.

use vstd::prelude::*;
use crate::order::{lemma_lt_total, lemma_lt_transitive, seq_less, seq_lt};
use crate::text::{chars_of, copy_range, eq_chars, string_of};

verus! {

/// A period of this many days or more, or of none, means all time.
pub const ALL_TIME_SENTINEL: i64 = 99999;

/// The day of an event time (`YYYY-MM-DD HH:MM:SS`): its first ten
/// characters, when it has that many.
pub open spec fn day_of(t: Seq<char>) -> Option<Seq<char>> {
    if t.len() >= 10 {
        Some(t.take(10))
    } else {
        None
    }
}

pub open spec fn string_views(v: Seq<String>) -> Seq<Seq<char>> {
    v.map_values(|s: String| s@)
}

/// Some event falls on day `d`.
pub open spec fn active_on(times: Seq<Seq<char>>, d: Seq<char>) -> bool {
    exists|i: int| 0 <= i < times.len() && day_of(times[i]) == Some(d)
}

/// Strictly descending: newest first, each day once.
pub open spec fn newest_first(v: Seq<Seq<char>>) -> bool {
    forall|i: int, j: int| 0 <= i < j < v.len() ==> seq_lt(#[trigger] v[j], #[trigger] v[i])
}

/// A period of no days, or of the sentinel or more, is all time.
pub open spec fn is_all_time(period_days: i64) -> bool {
    period_days <= 0 || period_days >= ALL_TIME_SENTINEL
}

/// How many of the `n` newest active days the window holds.
pub open spec fn window_size(n: int, period_days: i64) -> int {
    if is_all_time(period_days) || n <= period_days {
        n
    } else {
        period_days as int
    }
}

fn day_text(t: &str) -> (r: Option<String>)
    ensures
        match day_of(t@) {
            Some(d) => r matches Some(s) && s@ == d,
            None => r is None,
        },
{
    let c = chars_of(t);
    if c.len() >= 10 {
        let d = copy_range(c.as_slice(), 0, 10);
        assert(d@ =~= t@.take(10));
        Some(string_of(d.as_slice()))
    } else {
        None
    }
}

/// Put day `d` in its place in a newest-first list, unless it is there.
fn insert_day(days: &mut Vec<String>, d: String)
    requires
        newest_first(string_views(old(days)@)),
    ensures
        newest_first(string_views(final(days)@)),
        forall|x: Seq<char>|
            string_views(final(days)@).contains(x) <==> (string_views(old(days)@).contains(x) || x
                == d@),
{
    let ghost v = string_views(days@);
    let dc = chars_of(d.as_str());
    let mut j: usize = 0;
    loop
        invariant
            j <= days@.len(),
            days@ == old(days)@,
            v == string_views(days@),
            dc@ == d@,
            forall|i: int| 0 <= i < j ==> seq_lt(d@, #[trigger] v[i]),
        ensures
            j <= days@.len(),
            days@ == old(days)@,
            forall|i: int| 0 <= i < j ==> seq_lt(d@, #[trigger] v[i]),
            j < days@.len() ==> !seq_lt(d@, v[j as int]),
        decreases days@.len() - j,
    {
        if j == days.len() {
            break;
        }
        let cj = chars_of(days[j].as_str());
        assert(v[j as int] == days@[j as int]@);
        if seq_less(dc.as_slice(), cj.as_slice()) {
            j += 1;
        } else {
            break;
        }
    }
    if j < days.len() {
        let cj = chars_of(days[j].as_str());
        assert(v[j as int] == days@[j as int]@);
        if eq_chars(dc.as_slice(), cj.as_slice()) {
            assert(v.contains(d@));
            return;
        }
    }
    proof {
        if j < v.len() {
            lemma_lt_total(d@, v[j as int]);
            assert forall|i: int| j <= i < v.len() implies seq_lt(#[trigger] v[i], d@) by {
                if i > j {
                    lemma_lt_transitive(v[i], v[j as int], d@);
                }
            }
        }
    }
    days.insert(j, d);
    let ghost w = string_views(days@);
    assert(w =~= v.insert(j as int, d@));
    assert forall|a: int, b: int| 0 <= a < b < w.len() implies seq_lt(#[trigger] w[b], #[trigger] w[a]) by {
        if b < j {
        } else if a < j && b == j {
        } else if a < j {
            assert(w[b] == v[b - 1]);
            lemma_lt_transitive(v[b - 1], d@, v[a]);
        } else if a == j {
            assert(w[b] == v[b - 1]);
        } else {
            assert(w[a] == v[a - 1] && w[b] == v[b - 1]);
        }
    }
    assert forall|x: Seq<char>| w.contains(x) <==> (v.contains(x) || x == d@) by {
        if w.contains(x) {
            let k = choose|k: int| 0 <= k < w.len() && w[k] == x;
            if k < j {
                assert(v[k] == x);
            } else if k > j {
                assert(v[k - 1] == x);
            }
        }
        if v.contains(x) {
            let k = choose|k: int| 0 <= k < v.len() && v[k] == x;
            if k < j {
                assert(w[k] == x);
            } else {
                assert(w[k + 1] == x);
            }
        }
        if x == d@ {
            assert(w[j as int] == x);
        }
    }
}

/// The distinct days on which the events fall, newest first.
pub fn active_days(event_times: &Vec<String>) -> (r: Vec<String>)
    ensures
        newest_first(string_views(r@)),
        forall|d: Seq<char>|
            string_views(r@).contains(d) <==> active_on(string_views(event_times@), d),
{
    let ghost times = string_views(event_times@);
    let mut days: Vec<String> = Vec::new();
    let mut k: usize = 0;
    while k < event_times.len()
        invariant
            k <= event_times@.len(),
            times == string_views(event_times@),
            newest_first(string_views(days@)),
            forall|d: Seq<char>|
                string_views(days@).contains(d) <==> active_on(times.take(k as int), d),
        decreases event_times.len() - k,
    {
        let ghost before = days@;
        let day = day_text(event_times[k].as_str());
        assert(times[k as int] == event_times@[k as int]@);
        match day {
            Some(d) => insert_day(&mut days, d),
            None => {},
        }
        let ghost t0 = times.take(k as int);
        let ghost t1 = times.take(k + 1);
        assert forall|d: Seq<char>| string_views(days@).contains(d) <== active_on(t1, d) by {
            if active_on(t1, d) {
                let i = choose|i: int| 0 <= i < t1.len() && day_of(#[trigger] t1[i]) == Some(d);
                if i < k {
                    assert(t0[i] == t1[i]);
                    assert(active_on(t0, d));
                }
            }
        }
        assert forall|d: Seq<char>| string_views(days@).contains(d) ==> active_on(t1, d) by {
            if string_views(days@).contains(d) {
                if string_views(before).contains(d) {
                    let i = choose|i: int| 0 <= i < t0.len() && day_of(#[trigger] t0[i]) == Some(d);
                    assert(t1[i] == t0[i]);
                } else {
                    assert(t1[k as int] == times[k as int]);
                }
            }
        }
        k += 1;
    }
    assert(times.take(k as int) =~= times);
    days
}

/// Whether an event falls on one of the window's days: the `period_days`
/// newest active days, or all of them for all time.
pub fn in_window(days: &Vec<String>, period_days: i64, event_time: &str) -> (r: bool)
    ensures
        r == (day_of(event_time@) matches Some(d) && exists|i: int|
            0 <= i < window_size(days@.len() as int, period_days) && (#[trigger] days@[i])@ == d),
{
    let n = days.len();
    let size: usize = if period_days <= 0 || period_days >= ALL_TIME_SENTINEL {
        n
    } else {
        let p = period_days as usize;
        if n <= p {
            n
        } else {
            p
        }
    };
    let t = chars_of(event_time);
    if t.len() < 10 {
        return false;
    }
    let dc = copy_range(t.as_slice(), 0, 10);
    assert(dc@ =~= event_time@.take(10));
    let mut i: usize = 0;
    while i < size
        invariant
            i <= size <= n == days@.len(),
            size == window_size(n as int, period_days),
            dc@ == event_time@.take(10),
            event_time@.len() >= 10,
            forall|k: int| 0 <= k < i ==> (#[trigger] days@[k])@ != dc@,
        decreases size - i,
    {
        let c = chars_of(days[i].as_str());
        if eq_chars(dc.as_slice(), c.as_slice()) {
            assert(days@[i as int]@ == event_time@.take(10));
            assert(day_of(event_time@) == Some(dc@));
            assert(exists|k: int|
                0 <= k < window_size(days@.len() as int, period_days) && (#[trigger] days@[k])@ == dc@);
            return true;
        }
        i += 1;
    }
    false
}

} // verus!
