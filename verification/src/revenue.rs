//! The stall tracker's revenue pivot: sales bucketed by item and period
//! (day, ISO week or month), with row, column and grand totals.

use vstd::prelude::*;
use crate::calendar::{
    date_text, format_date, int_string, int_text, iso_week_days, iso_week_of, iso_week_span,
    iso_year_week, max_year, min_year, naive_datetime_parts, parse_naive_datetime, two, valid_date,
    week_key,
};
use crate::order::{lemma_lt_irreflexive, lemma_lt_total, lemma_lt_transitive, seq_less, seq_lt};
use crate::text::{chars_of, eq_chars, string_of};

verus! {

/// Time bucketing for the revenue pivot.
#[derive(Debug, Clone, Copy, PartialEq, Eq, Structural)]
pub enum Granularity {
    Daily,
    Weekly,
    Monthly,
}

/// One sale. `event_at` is a `"YYYY-MM-DD HH:MM:SS"` text; sales whose
/// text does not parse are left out of the pivot.
#[derive(Debug, Clone)]
pub struct RevenueEvent {
    pub item: String,
    pub event_at: String,
    pub price_total: i64,
}

/// A column of the pivot.
#[derive(Debug, Clone)]
pub struct RevenuePeriod {
    pub key: String,
    pub label: String,
}

/// The revenue of one item in one period.
#[derive(Debug, Clone)]
pub struct RevenueCell {
    pub item: String,
    pub period_key: String,
    pub revenue: i64,
}

/// The pivot: periods in key order, items in name order, the non-empty
/// cells in (item, period) order, and the totals.
#[derive(Debug, Clone)]
pub struct RevenueResult {
    pub periods: Vec<RevenuePeriod>,
    pub items: Vec<String>,
    pub cells: Vec<RevenueCell>,
    pub row_totals: Vec<(String, i64)>,
    pub col_totals: Vec<(String, i64)>,
    pub grand_total: i64,
}

// ============================================================
// Model
// ============================================================

/// A sale as plain values: item, timestamp text, price.
pub type EventV = (Seq<char>, Seq<char>, int);

/// A key of the pivot: a pair of texts compared as a tuple.
pub type Pair = (Seq<char>, Seq<char>);

/// The date or week numbers a period is made from.
pub type Parts = (int, int, int);

pub open spec fn events_view(v: Seq<RevenueEvent>) -> Seq<EventV> {
    v.map_values(|e: RevenueEvent| (e.item@, e.event_at@, e.price_total as int))
}

/// The calendar date of a timestamp text, when it parses.
pub open spec fn event_date(at: Seq<char>) -> Option<Parts> {
    match naive_datetime_parts(at) {
        Some(p) => Some((p.1 as int, p.2 as int, p.3 as int)),
        None => None,
    }
}

/// The numbers a period is made from: the date itself, the ISO year and
/// week, or the year and month (with day 1).
pub open spec fn period_parts(date: Parts, g: Granularity) -> Parts {
    match g {
        Granularity::Daily => date,
        Granularity::Weekly => {
            let w = iso_year_week(date.0, date.1, date.2);
            (w.0, w.1, 0)
        },
        Granularity::Monthly => (date.0, date.1, 1),
    }
}

/// `YYYY-MM-DD`, `YYYY-Www` or `YYYY-MM`.
pub open spec fn period_key_text(p: Parts, g: Granularity) -> Seq<char> {
    match g {
        Granularity::Daily => date_text(p.0, p.1, p.2, "%Y-%m-%d"@),
        Granularity::Weekly => int_text(p.0) + seq!['-', 'W'] + two(p.1 as nat),
        Granularity::Monthly => date_text(p.0, p.1, p.2, "%Y-%m"@),
    }
}

/// The column label of a period: `Apr 13` (with ` 2026` when the data spans
/// years), `Apr 13 – Apr 19` (with the ISO year), or `Apr 2026`. Where the
/// week's days or a month of a negative year cannot be shown, the key.
pub open spec fn period_label_text(p: Parts, g: Granularity, show_year: bool) -> Seq<char> {
    match g {
        Granularity::Daily => if show_year {
            date_text(p.0, p.1, p.2, "%b %-d %Y"@)
        } else {
            date_text(p.0, p.1, p.2, "%b %-d"@)
        },
        Granularity::Weekly => match iso_week_span(p.0, p.1) {
            Some(span) => {
                let range = date_text(span.0.0, span.0.1, span.0.2, "%b %-d"@) + seq![
                    ' ',
                    '\u{2013}',
                    ' ',
                ] + date_text(span.1.0, span.1.1, span.1.2, "%b %-d"@);
                if show_year {
                    range + seq![' '] + int_text(p.0)
                } else {
                    range
                }
            },
            None => period_key_text(p, g),
        },
        Granularity::Monthly => if p.0 < 0 {
            period_key_text(p, g)
        } else {
            date_text(p.0, p.1, 1, "%b %Y"@)
        },
    }
}

/// The period of a sale (zeros when its timestamp does not parse).
pub open spec fn period_of(e: EventV, g: Granularity) -> Parts {
    match event_date(e.1) {
        Some(d) => period_parts(d, g),
        None => (0, 0, 0),
    }
}

/// The cell a sale counts in.
pub open spec fn cell_key(e: EventV, g: Granularity) -> Option<Pair> {
    match event_date(e.1) {
        Some(d) => Some((e.0, period_key_text(period_parts(d, g), g))),
        None => None,
    }
}

/// The row a sale counts in.
pub open spec fn item_key(e: EventV) -> Option<Pair> {
    match event_date(e.1) {
        Some(d) => Some((e.0, Seq::empty())),
        None => None,
    }
}

/// The column a sale counts in.
pub open spec fn column_key(e: EventV, g: Granularity) -> Option<Pair> {
    match event_date(e.1) {
        Some(d) => Some((period_key_text(period_parts(d, g), g), Seq::empty())),
        None => None,
    }
}

pub open spec fn cells_by(g: Granularity) -> spec_fn(EventV) -> Option<Pair> {
    |e: EventV| cell_key(e, g)
}

pub open spec fn items_by() -> spec_fn(EventV) -> Option<Pair> {
    |e: EventV| item_key(e)
}

pub open spec fn columns_by(g: Granularity) -> spec_fn(EventV) -> Option<Pair> {
    |e: EventV| column_key(e, g)
}

/// The total price of the sales that `f` files under `k`.
pub open spec fn sum_for(evs: Seq<EventV>, f: spec_fn(EventV) -> Option<Pair>, k: Pair) -> int
    decreases evs.len(),
{
    if evs.len() == 0 {
        0
    } else {
        sum_for(evs.drop_last(), f, k) + if f(evs.last()) == Some(k) {
            evs.last().2
        } else {
            0
        }
    }
}

/// Some sale is filed under `k`.
pub open spec fn seen(evs: Seq<EventV>, f: spec_fn(EventV) -> Option<Pair>, k: Pair) -> bool {
    exists|j: int| 0 <= j < evs.len() && f(evs[j]) == Some(k)
}

/// The total price of the sales whose timestamp parses.
pub open spec fn parsed_total(evs: Seq<EventV>) -> int
    decreases evs.len(),
{
    if evs.len() == 0 {
        0
    } else {
        parsed_total(evs.drop_last()) + if event_date(evs.last().1) is Some {
            evs.last().2
        } else {
            0
        }
    }
}

/// The sum of the absolute prices, which bounds every total.
pub open spec fn abs_total(evs: Seq<EventV>) -> int
    decreases evs.len(),
{
    if evs.len() == 0 {
        0
    } else {
        abs_total(evs.drop_last()) + if evs.last().2 < 0 {
            -evs.last().2
        } else {
            evs.last().2
        }
    }
}

pub open spec fn year_of(e: EventV) -> Option<int> {
    match event_date(e.1) {
        Some(d) => Some(d.0),
        None => None,
    }
}

/// The parsed sales fall in more than one calendar year.
pub open spec fn spans_years(evs: Seq<EventV>) -> bool {
    exists|i: int, j: int|
        0 <= i < evs.len() && 0 <= j < evs.len() && year_of(evs[i]) is Some && year_of(evs[j]) is Some
            && year_of(evs[i]) != year_of(evs[j])
}

/// The tuple order of two texts.
pub open spec fn pair_lt(a: Pair, b: Pair) -> bool {
    seq_lt(a.0, b.0) || (a.0 == b.0 && seq_lt(a.1, b.1))
}

/// `t` lists, in strictly increasing key order, each key under which `f`
/// files a sale, once, with the total price filed under it.
pub open spec fn tallies(evs: Seq<EventV>, f: spec_fn(EventV) -> Option<Pair>, t: Seq<(Pair, int)>) -> bool {
    &&& forall|i: int, j: int| 0 <= i < j < t.len() ==> pair_lt(t[i].0, t[j].0)
    &&& forall|i: int|
        0 <= i < t.len() ==> (#[trigger] t[i]).1 == sum_for(evs, f, t[i].0) && seen(evs, f, t[i].0)
    &&& forall|j: int|
        0 <= j < evs.len() && (#[trigger] f(evs[j])) is Some ==> exists|i: int|
            0 <= i < t.len() && t[i].0 == f(evs[j])->0
}

// ============================================================
// Order lemmas
// ============================================================

proof fn lemma_pair_irreflexive(a: Pair)
    ensures
        !pair_lt(a, a),
{
    lemma_lt_irreflexive(a.0);
    lemma_lt_irreflexive(a.1);
}

proof fn lemma_pair_transitive(a: Pair, b: Pair, c: Pair)
    ensures
        pair_lt(a, b) && pair_lt(b, c) ==> pair_lt(a, c),
{
    lemma_lt_transitive(a.0, b.0, c.0);
    lemma_lt_transitive(a.1, b.1, c.1);
}

proof fn lemma_pair_total(a: Pair, b: Pair)
    ensures
        a != b ==> pair_lt(a, b) || pair_lt(b, a),
{
    lemma_lt_total(a.0, b.0);
    lemma_lt_total(a.1, b.1);
}

// ============================================================
// Sorted tallies
// ============================================================

/// An entry of a tally: a key, its running total, and the period numbers
/// of the first sale filed under it.
struct Slot {
    a: String,
    b: String,
    amount: i128,
    parts: (i32, u32, u32),
}

type SlotV = (Pair, int, Parts);

spec fn slot_v(s: Slot) -> SlotV {
    ((s.a@, s.b@), s.amount as int, (s.parts.0 as int, s.parts.1 as int, s.parts.2 as int))
}

spec fn slots_v(v: Seq<Slot>) -> Seq<SlotV> {
    v.map_values(|s: Slot| slot_v(s))
}

spec fn strictly_sorted(t: Seq<SlotV>) -> bool {
    forall|i: int, j: int| 0 <= i < j < t.len() ==> pair_lt(t[i].0, t[j].0)
}

spec fn present(t: Seq<SlotV>, k: Pair) -> bool {
    exists|i: int| 0 <= i < t.len() && t[i].0 == k
}

spec fn amount_of(t: Seq<SlotV>, k: Pair) -> int {
    if present(t, k) {
        t[choose|i: int| 0 <= i < t.len() && t[i].0 == k].1
    } else {
        0
    }
}

spec fn parts_of(t: Seq<SlotV>, k: Pair) -> Parts {
    if present(t, k) {
        t[choose|i: int| 0 <= i < t.len() && t[i].0 == k].2
    } else {
        (0, 0, 0)
    }
}

proof fn lemma_slot_at(t: Seq<SlotV>, at: int)
    requires
        strictly_sorted(t),
        0 <= at < t.len(),
    ensures
        present(t, t[at].0),
        amount_of(t, t[at].0) == t[at].1,
        parts_of(t, t[at].0) == t[at].2,
{
    let k = t[at].0;
    assert(present(t, k));
    let c = choose|i: int| 0 <= i < t.len() && t[i].0 == k;
    lemma_pair_irreflexive(k);
    assert(c == at) by {
        if c < at {
            assert(pair_lt(t[c].0, t[at].0));
        } else if c > at {
            assert(pair_lt(t[at].0, t[c].0));
        }
    }
}

/// Whether `s`'s key comes before `(a, b)`.
fn slot_before(s: &Slot, a: &[char], b: &[char]) -> (r: bool)
    ensures
        r == pair_lt((s.a@, s.b@), (a@, b@)),
{
    let sa = chars_of(s.a.as_str());
    if seq_less(sa.as_slice(), a) {
        return true;
    }
    if !eq_chars(sa.as_slice(), a) {
        return false;
    }
    let sb = chars_of(s.b.as_str());
    seq_less(sb.as_slice(), b)
}

/// Whether `s`'s key is `(a, b)`.
fn slot_is(s: &Slot, a: &[char], b: &[char]) -> (r: bool)
    ensures
        r == ((s.a@, s.b@) == (a@, b@)),
{
    let sa = chars_of(s.a.as_str());
    let sb = chars_of(s.b.as_str());
    eq_chars(sa.as_slice(), a) && eq_chars(sb.as_slice(), b)
}

/// The amount under `(a, b)`.
fn slot_amount(t: &Vec<Slot>, a: &String, b: &String) -> (r: i128)
    requires
        strictly_sorted(slots_v(t@)),
    ensures
        r == amount_of(slots_v(t@), (a@, b@)),
{
    let ka = chars_of(a.as_str());
    let kb = chars_of(b.as_str());
    let ghost v = slots_v(t@);
    let mut p: usize = 0;
    while p < t.len()
        invariant
            p <= t@.len(),
            v == slots_v(t@),
            strictly_sorted(v),
            ka@ == a@,
            kb@ == b@,
            forall|i: int| 0 <= i < p ==> (#[trigger] v[i]).0 != (a@, b@),
        decreases t.len() - p,
    {
        assert(v[p as int] == slot_v(t@[p as int]));
        if slot_is(&t[p], ka.as_slice(), kb.as_slice()) {
            proof {
                lemma_slot_at(v, p as int);
            }
            return t[p].amount;
        }
        p += 1;
    }
    assert(!present(v, (a@, b@)));
    0
}

/// Adds `amount` under `(a, b)`, opening an entry with `parts` where the
/// key is new.
fn tally_add(t: &mut Vec<Slot>, a: &String, b: &String, amount: i128, parts: (i32, u32, u32))
    requires
        strictly_sorted(slots_v(old(t)@)),
        i128::MIN <= amount_of(slots_v(old(t)@), (a@, b@)) + amount <= i128::MAX,
    ensures
        strictly_sorted(slots_v(final(t)@)),
        forall|k: Pair|
            #[trigger] amount_of(slots_v(final(t)@), k) == amount_of(slots_v(old(t)@), k) + if k == (
                a@,
                b@,
            ) {
                amount as int
            } else {
                0
            },
        forall|k: Pair|
            #[trigger] present(slots_v(final(t)@), k) == (present(slots_v(old(t)@), k) || k == (
                a@,
                b@,
            )),
        forall|k: Pair|
            present(slots_v(old(t)@), k) ==> #[trigger] parts_of(slots_v(final(t)@), k) == parts_of(
                slots_v(old(t)@),
                k,
            ),
        !present(slots_v(old(t)@), (a@, b@)) ==> parts_of(slots_v(final(t)@), (a@, b@)) == (
            parts.0 as int,
            parts.1 as int,
            parts.2 as int,
        ),
{
    let ghost old_v = slots_v(t@);
    let ghost key: Pair = (a@, b@);
    let ka = chars_of(a.as_str());
    let kb = chars_of(b.as_str());
    let sa = ka.as_slice();
    let sb = kb.as_slice();
    assert(sa@ == a@ && sb@ == b@);
    let mut p: usize = 0;
    while p < t.len()
        invariant
            p <= t@.len(),
            old_v == slots_v(t@),
            sa@ == a@,
            sb@ == b@,
            key == (a@, b@),
            forall|i: int| 0 <= i < p ==> pair_lt(#[trigger] old_v[i].0, key),
        ensures
            p <= t@.len(),
            forall|i: int| 0 <= i < p ==> pair_lt(#[trigger] old_v[i].0, key),
            p < t@.len() ==> !pair_lt(old_v[p as int].0, key),
        decreases t.len() - p,
    {
        assert(old_v[p as int].0 == (t@[p as int].a@, t@[p as int].b@));
        let before = slot_before(&t[p], sa, sb);
        assert(before == pair_lt(old_v[p as int].0, key));
        if !before {
            break;
        }
        p += 1;
    }
    proof {
        if p < t.len() {
            assert(old_v[p as int].0 == (t@[p as int].a@, t@[p as int].b@));
        }
    }
    if p < t.len() && slot_is(&t[p], sa, sb) {
        let ghost at = p as int;
        proof {
            lemma_slot_at(old_v, at);
        }
        let s = Slot {
            a: t[p].a.clone(),
            b: t[p].b.clone(),
            amount: t[p].amount + amount,
            parts: t[p].parts,
        };
        t.set(p, s);
        proof {
            let v = slots_v(t@);
            assert(v =~= old_v.update(at, (key, old_v[at].1 + amount, old_v[at].2)));
            assert forall|i: int, j: int| 0 <= i < j < v.len() implies pair_lt(v[i].0, v[j].0) by {
                assert(v[i].0 == old_v[i].0 && v[j].0 == old_v[j].0);
            }
            assert forall|k: Pair| #[trigger] present(v, k) == present(old_v, k) by {
                if present(v, k) {
                    let i = choose|i: int| 0 <= i < v.len() && v[i].0 == k;
                    assert(old_v[i].0 == k);
                }
                if present(old_v, k) {
                    let i = choose|i: int| 0 <= i < old_v.len() && old_v[i].0 == k;
                    assert(v[i].0 == k);
                }
            }
            assert forall|k: Pair|
                #[trigger] amount_of(v, k) == amount_of(old_v, k) + if k == key {
                    amount as int
                } else {
                    0
                } by {
                if present(v, k) {
                    let i = choose|i: int| 0 <= i < v.len() && v[i].0 == k;
                    lemma_slot_at(v, i);
                    lemma_slot_at(old_v, i);
                }
            }
            assert forall|k: Pair| present(old_v, k) implies #[trigger] parts_of(v, k) == parts_of(
                old_v,
                k,
            ) by {
                let i = choose|i: int| 0 <= i < old_v.len() && old_v[i].0 == k;
                assert(v[i].0 == k);
                lemma_slot_at(v, i);
                lemma_slot_at(old_v, i);
            }
        }
    } else {
        let ghost at = p as int;
        let s = Slot { a: a.clone(), b: b.clone(), amount: amount, parts: parts };
        t.insert(p, s);
        proof {
            let v = slots_v(t@);
            let pv: Parts = (parts.0 as int, parts.1 as int, parts.2 as int);
            assert(v =~= old_v.insert(at, (key, amount as int, pv)));
            if at < old_v.len() {
                lemma_pair_total(old_v[at].0, key);
                assert(pair_lt(key, old_v[at].0));
            }
            assert forall|i: int| 0 <= i < old_v.len() implies old_v[i].0 != key by {
                lemma_pair_irreflexive(key);
                if i > at {
                    lemma_pair_transitive(key, old_v[at].0, old_v[i].0);
                }
            }
            assert(!present(old_v, key));
            assert forall|i: int, j: int| 0 <= i < j < v.len() implies pair_lt(v[i].0, v[j].0) by {
                if i == at {
                    if j > at + 1 {
                        lemma_pair_transitive(key, old_v[at].0, old_v[j - 1].0);
                    }
                } else if j == at {
                    assert(v[i] == old_v[i]);
                } else if j < at {
                    assert(v[i] == old_v[i] && v[j] == old_v[j]);
                } else if i < at {
                    assert(v[i] == old_v[i] && v[j] == old_v[j - 1]);
                    lemma_pair_transitive(old_v[i].0, key, old_v[j - 1].0);
                } else {
                    assert(v[i] == old_v[i - 1] && v[j] == old_v[j - 1]);
                }
            }
            assert forall|k: Pair| #[trigger] present(v, k) == (present(old_v, k) || k == key) by {
                if present(v, k) && k != key {
                    let i = choose|i: int| 0 <= i < v.len() && v[i].0 == k;
                    if i < at {
                        assert(old_v[i].0 == k);
                    } else {
                        assert(old_v[i - 1].0 == k);
                    }
                }
                if present(old_v, k) {
                    let i = choose|i: int| 0 <= i < old_v.len() && old_v[i].0 == k;
                    if i < at {
                        assert(v[i].0 == k);
                    } else {
                        assert(v[i + 1].0 == k);
                    }
                }
                if k == key {
                    assert(v[at].0 == k);
                }
            }
            assert forall|k: Pair|
                #[trigger] amount_of(v, k) == amount_of(old_v, k) + if k == key {
                    amount as int
                } else {
                    0
                } && (present(old_v, k) ==> parts_of(v, k) == parts_of(old_v, k)) && (k == key
                    ==> parts_of(v, k) == pv) by {
                if present(v, k) {
                    let i = choose|i: int| 0 <= i < v.len() && v[i].0 == k;
                    lemma_slot_at(v, i);
                    if i < at {
                        lemma_slot_at(old_v, i);
                    } else if i > at {
                        lemma_slot_at(old_v, i - 1);
                    }
                }
            }
            assert forall|k: Pair| present(old_v, k) implies #[trigger] parts_of(v, k) == parts_of(
                old_v,
                k,
            ) by {
                assert(amount_of(v, k) == amount_of(old_v, k) + if k == key {
                    amount as int
                } else {
                    0
                });
            }
        }
    }
}

// ============================================================
// Sums over the sales
// ============================================================

proof fn lemma_sum_push(pre: Seq<EventV>, e: EventV, f: spec_fn(EventV) -> Option<Pair>, k: Pair)
    ensures
        sum_for(pre.push(e), f, k) == sum_for(pre, f, k) + if f(e) == Some(k) {
            e.2
        } else {
            0
        },
        seen(pre.push(e), f, k) == (seen(pre, f, k) || f(e) == Some(k)),
{
    let s = pre.push(e);
    assert(s.drop_last() =~= pre);
    if seen(s, f, k) && f(e) != Some(k) {
        let j = choose|j: int| 0 <= j < s.len() && f(s[j]) == Some(k);
        assert(pre[j] == s[j]);
    }
    if seen(pre, f, k) {
        let j = choose|j: int| 0 <= j < pre.len() && f(pre[j]) == Some(k);
        assert(s[j] == pre[j]);
    }
    if f(e) == Some(k) {
        assert(s[pre.len() as int] == e);
    }
}

proof fn lemma_sum_bound(evs: Seq<EventV>, f: spec_fn(EventV) -> Option<Pair>, k: Pair)
    ensures
        -abs_total(evs) <= sum_for(evs, f, k) <= abs_total(evs),
        -abs_total(evs) <= parsed_total(evs) <= abs_total(evs),
    decreases evs.len(),
{
    if evs.len() > 0 {
        lemma_sum_bound(evs.drop_last(), f, k);
    }
}

proof fn lemma_abs_prefix(evs: Seq<EventV>, n: int)
    requires
        0 <= n <= evs.len(),
    ensures
        abs_total(evs.take(n)) <= abs_total(evs),
    decreases evs.len(),
{
    if n == evs.len() {
        assert(evs.take(n) =~= evs);
    } else {
        assert(evs.drop_last().take(n) =~= evs.take(n));
        lemma_abs_prefix(evs.drop_last(), n);
    }
}

/// What is known of the years of the sales seen so far: the first year seen,
/// and whether another one was seen.
spec fn years_state(pre: Seq<EventV>, first: Option<int>, multi: bool) -> bool {
    &&& multi == spans_years(pre)
    &&& (first is None <==> forall|j: int| 0 <= j < pre.len() ==> year_of(#[trigger] pre[j]) is None)
    &&& first is Some ==> exists|j: int| 0 <= j < pre.len() && year_of(#[trigger] pre[j]) == first
    &&& (!multi && first is Some) ==> forall|j: int|
        0 <= j < pre.len() && year_of(#[trigger] pre[j]) is Some ==> year_of(pre[j]) == first
}

proof fn lemma_years_step(pre: Seq<EventV>, e: EventV, first: Option<int>, multi: bool)
    requires
        years_state(pre, first, multi),
    ensures
        years_state(
            pre.push(e),
            if first is None {
                year_of(e)
            } else {
                first
            },
            multi || (first is Some && year_of(e) is Some && year_of(e) != first),
        ),
{
    let s = pre.push(e);
    let n = pre.len() as int;
    assert(s[n] == e);
    assert forall|j: int| 0 <= j < n implies s[j] == pre[j] by {}
    if multi {
        let (a, b) = choose|a: int, b: int|
            0 <= a < pre.len() && 0 <= b < pre.len() && year_of(pre[a]) is Some && year_of(
                pre[b],
            ) is Some && year_of(pre[a]) != year_of(pre[b]);
        assert(s[a] == pre[a] && s[b] == pre[b]);
    } else if first is None {
        if spans_years(s) {
            let (a, b) = choose|a: int, b: int|
                0 <= a < s.len() && 0 <= b < s.len() && year_of(s[a]) is Some && year_of(s[b]) is Some
                    && year_of(s[a]) != year_of(s[b]);
            if a < n {
                assert(year_of(pre[a]) is None);
            }
            if b < n {
                assert(year_of(pre[b]) is None);
            }
        }
        if year_of(e) is None {
            assert forall|j: int| 0 <= j < s.len() implies year_of(#[trigger] s[j]) is None by {
                if j < n {
                    assert(year_of(pre[j]) is None);
                }
            }
        }
        assert forall|j: int| 0 <= j < s.len() && year_of(#[trigger] s[j]) is Some implies year_of(
            s[j],
        ) == year_of(e) by {
            if j < n {
                assert(year_of(pre[j]) is None);
            }
        }
    } else {
        let w = choose|j: int| 0 <= j < pre.len() && year_of(#[trigger] pre[j]) == first;
        assert(s[w] == pre[w]);
        if year_of(e) is Some && year_of(e) != first {
            assert(year_of(s[w]) is Some && year_of(s[n]) is Some && year_of(s[w]) != year_of(
                s[n],
            ));
        } else {
            assert forall|j: int| 0 <= j < s.len() && year_of(#[trigger] s[j]) is Some implies year_of(
                s[j],
            ) == first by {
                if j < n {
                    assert(year_of(pre[j]) is Some);
                }
            }
            if spans_years(s) {
                let (a, b) = choose|a: int, b: int|
                    0 <= a < s.len() && 0 <= b < s.len() && year_of(s[a]) is Some && year_of(
                        s[b],
                    ) is Some && year_of(s[a]) != year_of(s[b]);
                assert(year_of(s[a]) == first && year_of(s[b]) == first);
            }
        }
        assert(first is Some);
        assert(exists|j: int| 0 <= j < s.len() && year_of(#[trigger] s[j]) == first);
        assert(!(forall|j: int| 0 <= j < s.len() ==> year_of(#[trigger] s[j]) is None));
    }
}

// ============================================================
// Results
// ============================================================

spec fn pairs_of(t: Seq<SlotV>) -> Seq<(Pair, int)> {
    t.map_values(|s: SlotV| (s.0, s.1))
}

pub open spec fn cells_view(v: Seq<RevenueCell>) -> Seq<(Pair, int)> {
    v.map_values(|c: RevenueCell| ((c.item@, c.period_key@), c.revenue as int))
}

pub open spec fn totals_view(v: Seq<(String, i64)>) -> Seq<(Pair, int)> {
    v.map_values(|p: (String, i64)| ((p.0@, Seq::<char>::empty()), p.1 as int))
}

/// `label` is the label of the period `key`, made from a sale in it.
pub open spec fn labelled(evs: Seq<EventV>, g: Granularity, key: Seq<char>, label: Seq<char>) -> bool {
    exists|j: int|
        0 <= j < evs.len() && column_key(evs[j], g) == Some((key, Seq::<char>::empty())) && label
            == period_label_text(period_of(evs[j], g), g, spans_years(evs))
}

proof fn lemma_tallies(evs: Seq<EventV>, f: spec_fn(EventV) -> Option<Pair>, t: Seq<SlotV>)
    requires
        strictly_sorted(t),
        forall|k: Pair| #[trigger] amount_of(t, k) == sum_for(evs, f, k),
        forall|k: Pair| #[trigger] present(t, k) == seen(evs, f, k),
    ensures
        tallies(evs, f, pairs_of(t)),
{
    let v = pairs_of(t);
    assert forall|i: int| 0 <= i < v.len() implies (#[trigger] v[i]).1 == sum_for(evs, f, v[i].0)
        && seen(evs, f, v[i].0) by {
        lemma_slot_at(t, i);
        assert(amount_of(t, t[i].0) == sum_for(evs, f, t[i].0));
        assert(present(t, t[i].0) == seen(evs, f, t[i].0));
    }
    assert forall|j: int| 0 <= j < evs.len() && (#[trigger] f(evs[j])) is Some implies exists|i: int|
        0 <= i < v.len() && v[i].0 == f(evs[j])->0 by {
        let k = f(evs[j])->0;
        assert(seen(evs, f, k));
        assert(present(t, k) == seen(evs, f, k));
        let i = choose|i: int| 0 <= i < t.len() && t[i].0 == k;
        assert(v[i].0 == k);
    }
}

fn slots_to_cells(t: &Vec<Slot>) -> (r: Vec<RevenueCell>)
    requires
        forall|i: int| 0 <= i < t@.len() ==> in_i64((#[trigger] t@[i]).amount as int),
    ensures
        cells_view(r@) == pairs_of(slots_v(t@)),
{
    let mut r: Vec<RevenueCell> = Vec::new();
    let mut i: usize = 0;
    while i < t.len()
        invariant
            i <= t@.len(),
            r@.len() == i,
            forall|i: int| 0 <= i < t@.len() ==> in_i64((#[trigger] t@[i]).amount as int),
            cells_view(r@) == pairs_of(slots_v(t@)).take(i as int),
        decreases t.len() - i,
    {
        let s = &t[i];
        let ghost before = r@;
        r.push(RevenueCell { item: s.a.clone(), period_key: s.b.clone(), revenue: s.amount as i64 });
        assert(slots_v(t@)[i as int] == slot_v(*s));
        assert(pairs_of(slots_v(t@))[i as int] == ((s.a@, s.b@), s.amount as int));
        assert(cells_view(r@)[i as int] == ((s.a@, s.b@), s.amount as int));
        assert(cells_view(r@) =~= pairs_of(slots_v(t@)).take(i + 1));
        i += 1;
    }
    assert(pairs_of(slots_v(t@)).take(t@.len() as int) =~= pairs_of(slots_v(t@)));
    r
}

fn slots_to_totals(t: &Vec<Slot>) -> (r: Vec<(String, i64)>)
    requires
        forall|i: int| 0 <= i < t@.len() ==> (#[trigger] t@[i]).b@ == Seq::<char>::empty(),
        forall|i: int| 0 <= i < t@.len() ==> in_i64((#[trigger] t@[i]).amount as int),
    ensures
        totals_view(r@) == pairs_of(slots_v(t@)),
{
    let mut r: Vec<(String, i64)> = Vec::new();
    let mut i: usize = 0;
    while i < t.len()
        invariant
            i <= t@.len(),
            forall|i: int| 0 <= i < t@.len() ==> (#[trigger] t@[i]).b@ == Seq::<char>::empty(),
            forall|i: int| 0 <= i < t@.len() ==> in_i64((#[trigger] t@[i]).amount as int),
            r@.len() == i,
            totals_view(r@) == pairs_of(slots_v(t@)).take(i as int),
        decreases t.len() - i,
    {
        let s = &t[i];
        let ghost before = r@;
        r.push((s.a.clone(), s.amount as i64));
        assert(slots_v(t@)[i as int] == slot_v(*s));
        assert(pairs_of(slots_v(t@))[i as int] == ((s.a@, s.b@), s.amount as int));
        assert(totals_view(r@)[i as int] == ((s.a@, Seq::<char>::empty()), s.amount as int));
        assert(totals_view(r@) =~= pairs_of(slots_v(t@)).take(i + 1));
        i += 1;
    }
    assert(pairs_of(slots_v(t@)).take(t@.len() as int) =~= pairs_of(slots_v(t@)));
    r
}

/// The period numbers can be shown: a valid date, a week year beside a
/// valid year, or a valid first of the month.
spec fn label_ready(p: Parts, g: Granularity) -> bool {
    match g {
        Granularity::Daily => valid_date(p.0, p.1, p.2),
        Granularity::Weekly => min_year() - 1 <= p.0 <= max_year() + 1,
        Granularity::Monthly => valid_date(p.0, p.1, 1),
    }
}

fn push_text(v: &mut Vec<char>, s: &String)
    ensures
        final(v)@ == old(v)@ + s@,
{
    let c = chars_of(s.as_str());
    let mut i: usize = 0;
    while i < c.len()
        invariant
            i <= c@.len(),
            c@ == s@,
            v@ == old(v)@ + c@.take(i as int),
        decreases c.len() - i,
    {
        v.push(c[i]);
        assert(c@.take(i + 1) =~= c@.take(i as int).push(c@[i as int]));
        i += 1;
    }
    assert(c@.take(c@.len() as int) =~= c@);
}

/// The label of a period from its numbers and key.
fn period_label(key: &String, p: (i32, u32, u32), g: Granularity, show_year: bool) -> (r: String)
    requires
        label_ready((p.0 as int, p.1 as int, p.2 as int), g),
        key@ == period_key_text((p.0 as int, p.1 as int, p.2 as int), g),
    ensures
        r@ == period_label_text((p.0 as int, p.1 as int, p.2 as int), g, show_year),
{
    match g {
        Granularity::Daily => if show_year {
            format_date(p.0, p.1, p.2, "%b %-d %Y")
        } else {
            format_date(p.0, p.1, p.2, "%b %-d")
        },
        Granularity::Weekly => match iso_week_days(p.0, p.1) {
            Some(span) => {
                let mon = format_date(span.0.0, span.0.1, span.0.2, "%b %-d");
                let sun = format_date(span.1.0, span.1.1, span.1.2, "%b %-d");
                let mut v: Vec<char> = Vec::new();
                push_text(&mut v, &mon);
                v.push(' ');
                v.push('\u{2013}');
                v.push(' ');
                push_text(&mut v, &sun);
                if show_year {
                    v.push(' ');
                    let y = int_string(p.0);
                    push_text(&mut v, &y);
                }
                proof {
                    let range = mon@ + seq![' ', '\u{2013}', ' '] + sun@;
                    if show_year {
                        assert(v@ =~= range + seq![' '] + int_text(p.0 as int));
                    } else {
                        assert(v@ =~= range);
                    }
                }
                string_of(v.as_slice())
            },
            None => key.clone(),
        },
        Granularity::Monthly => if p.0 < 0 {
            key.clone()
        } else {
            format_date(p.0, p.1, 1, "%b %Y")
        },
    }
}

// ============================================================
// The pivot
// ============================================================

/// `t` holds, for the sales `pre`, the total and presence of every key
/// that `f` files sales under.
spec fn tracks(t: Seq<SlotV>, pre: Seq<EventV>, f: spec_fn(EventV) -> Option<Pair>) -> bool {
    &&& strictly_sorted(t)
    &&& forall|k: Pair| #[trigger] amount_of(t, k) == sum_for(pre, f, k)
    &&& forall|k: Pair| #[trigger] present(t, k) == seen(pre, f, k)
}

/// Each column of `t` can be labelled, and its numbers are those of one of
/// the first `n` sales in it.
spec fn columns_known(t: Seq<SlotV>, evs: Seq<EventV>, g: Granularity, n: int) -> bool {
    forall|k: Pair|
        #[trigger] present(t, k) ==> label_ready(parts_of(t, k), g) && exists|j: int|
            0 <= j < n && column_key(evs[j], g) == Some(k) && period_of(evs[j], g) == parts_of(t, k)
}

proof fn lemma_track_skip(t: Seq<SlotV>, pre: Seq<EventV>, ev: EventV, f: spec_fn(EventV) -> Option<Pair>)
    requires
        tracks(t, pre, f),
        f(ev) is None,
    ensures
        tracks(t, pre.push(ev), f),
{
    assert forall|k: Pair| #[trigger] amount_of(t, k) == sum_for(pre.push(ev), f, k) by {
        lemma_sum_push(pre, ev, f, k);
    }
    assert forall|k: Pair| #[trigger] present(t, k) == seen(pre.push(ev), f, k) by {
        lemma_sum_push(pre, ev, f, k);
    }
}

proof fn lemma_track_add(
    t0: Seq<SlotV>,
    t1: Seq<SlotV>,
    pre: Seq<EventV>,
    ev: EventV,
    f: spec_fn(EventV) -> Option<Pair>,
    key: Pair,
)
    requires
        tracks(t0, pre, f),
        f(ev) == Some(key),
        strictly_sorted(t1),
        forall|k: Pair|
            #[trigger] amount_of(t1, k) == amount_of(t0, k) + if k == key {
                ev.2
            } else {
                0
            },
        forall|k: Pair| #[trigger] present(t1, k) == (present(t0, k) || k == key),
    ensures
        tracks(t1, pre.push(ev), f),
{
    assert forall|k: Pair| #[trigger] amount_of(t1, k) == sum_for(pre.push(ev), f, k) by {
        lemma_sum_push(pre, ev, f, k);
        assert(amount_of(t0, k) == sum_for(pre, f, k));
    }
    assert forall|k: Pair| #[trigger] present(t1, k) == seen(pre.push(ev), f, k) by {
        lemma_sum_push(pre, ev, f, k);
        assert(present(t0, k) == seen(pre, f, k));
    }
}

/// The running state of the pivot.
struct PivotState {
    cells: Vec<Slot>,
    rows: Vec<Slot>,
    cols: Vec<Slot>,
    grand: i128,
    first_year: Option<i32>,
    multi: bool,
}

spec fn year_v(o: Option<i32>) -> Option<int> {
    match o {
        Some(y) => Some(y as int),
        None => None,
    }
}

/// What the first `n` sales have built.
spec fn built(evs: Seq<EventV>, g: Granularity, n: int, st: PivotState) -> bool {
    let pre = evs.take(n);
    &&& tracks(slots_v(st.cells@), pre, cells_by(g))
    &&& tracks(slots_v(st.rows@), pre, items_by())
    &&& tracks(slots_v(st.cols@), pre, columns_by(g))
    &&& columns_known(slots_v(st.cols@), evs, g, n)
    &&& st.grand == parsed_total(pre)
    &&& years_state(pre, year_v(st.first_year), st.multi)
}

spec fn sale_v(e: RevenueEvent) -> EventV {
    (e.item@, e.event_at@, e.price_total as int)
}

/// Files the `n`-th sale.
fn add_sale(
    st: &mut PivotState,
    e: &RevenueEvent,
    g: Granularity,
    empty: &String,
    Ghost(evs): Ghost<Seq<EventV>>,
    Ghost(n): Ghost<int>,
) -> (fits: bool)
    requires
        0 <= n < evs.len(),
        evs[n] == sale_v(*e),
        abs_total(evs) <= i128::MAX,
        empty@ == Seq::<char>::empty(),
        built(evs, g, n, *old(st)),
    ensures
        built(evs, g, n + 1, *final(st)),
        fits == (cells_by(g)(evs[n]) matches Some(k) ==> in_i64(sum_for(evs.take(n + 1), cells_by(g), k))),
{
    let ghost pre = evs.take(n);
    let ghost ev = evs[n];
    let ghost post = pre.push(ev);
    proof {
        assert(evs.take(n + 1) =~= post);
        assert(post.drop_last() =~= pre);
        lemma_abs_prefix(evs, n + 1);
        lemma_years_step(pre, ev, year_v(st.first_year), st.multi);
        lemma_sum_bound(post, cells_by(g), (e.item@, Seq::empty()));
    }
    let parsed = parse_naive_datetime(e.event_at.as_str());
    match parsed {
        None => {
            proof {
                assert(event_date(ev.1) is None);
                lemma_track_skip(slots_v(st.cells@), pre, ev, cells_by(g));
                lemma_track_skip(slots_v(st.rows@), pre, ev, items_by());
                lemma_track_skip(slots_v(st.cols@), pre, ev, columns_by(g));
            }
            true
        },
        Some(pv) => {
            let y = pv.1;
            let m = pv.2;
            let d = pv.3;
            let ghost date: Parts = (y as int, m as int, d as int);
            proof {
                assert(event_date(ev.1) == Some(date));
            }
            let parts: (i32, u32, u32);
            let key: String;
            match g {
                Granularity::Daily => {
                    parts = (y, m, d);
                    key = format_date(y, m, d, "%Y-%m-%d");
                },
                Granularity::Weekly => {
                    let w = iso_week_of(y, m, d);
                    parts = (w.0, w.1, 0);
                    key = week_key(w.0, w.1);
                },
                Granularity::Monthly => {
                    parts = (y, m, 1);
                    key = format_date(y, m, d, "%Y-%m");
                    proof {
                        reveal_strlit("%Y-%m");
                        reveal_strlit("%Y-%m-%d");
                        assert("%Y-%m"@.len() == 5);
                        assert("%Y-%m-%d"@.len() == 8);
                        assert("%Y-%m"@ != "%Y-%m-%d"@);
                        assert(key@ == period_key_text((y as int, m as int, 1), g));
                    }
                },
            }
            let ghost pp: Parts = (parts.0 as int, parts.1 as int, parts.2 as int);
            proof {
                assert(pp == period_parts(date, g));
                assert(key@ == period_key_text(pp, g));
                assert(label_ready(pp, g));
            }
            match st.first_year {
                Some(fy) => {
                    if fy != y {
                        st.multi = true;
                    }
                },
                None => {
                    st.first_year = Some(y);
                },
            }
            let ghost ck: Pair = (e.item@, key@);
            let ghost rk: Pair = (e.item@, Seq::<char>::empty());
            let ghost kk: Pair = (key@, Seq::<char>::empty());
            proof {
                assert(cells_by(g)(ev) == Some(ck));
                assert(items_by()(ev) == Some(rk));
                assert(columns_by(g)(ev) == Some(kk));
                lemma_sum_push(pre, ev, cells_by(g), ck);
                lemma_sum_push(pre, ev, items_by(), rk);
                lemma_sum_push(pre, ev, columns_by(g), kk);
                lemma_sum_bound(post, cells_by(g), ck);
                lemma_sum_bound(post, items_by(), rk);
                lemma_sum_bound(post, columns_by(g), kk);
            }
            let ghost c0 = slots_v(st.cells@);
            let ghost r0 = slots_v(st.rows@);
            let ghost k0 = slots_v(st.cols@);
            tally_add(&mut st.cells, &e.item, &key, e.price_total as i128, (0, 0, 0));
            tally_add(&mut st.rows, &e.item, empty, e.price_total as i128, (0, 0, 0));
            tally_add(&mut st.cols, &key, empty, e.price_total as i128, parts);
            st.grand = st.grand + e.price_total as i128;
            proof {
                let k1 = slots_v(st.cols@);
                lemma_track_add(c0, slots_v(st.cells@), pre, ev, cells_by(g), ck);
                lemma_track_add(r0, slots_v(st.rows@), pre, ev, items_by(), rk);
                lemma_track_add(k0, k1, pre, ev, columns_by(g), kk);
                assert forall|k: Pair| #[trigger] present(k1, k) implies label_ready(
                    parts_of(k1, k),
                    g,
                ) && exists|j: int|
                    0 <= j < n + 1 && column_key(evs[j], g) == Some(k) && period_of(evs[j], g)
                        == parts_of(k1, k) by {
                    if present(k0, k) {
                        let j = choose|j: int|
                            0 <= j < n && column_key(evs[j], g) == Some(k) && period_of(evs[j], g)
                                == parts_of(k0, k);
                    } else {
                        assert(k == kk);
                        assert(column_key(evs[n], g) == Some(k));
                    }
                }
            }
            let v = slot_amount(&st.cells, &e.item, &key);
            proof {
                assert(evs.take(n + 1) == post);
            }
            i64::MIN as i128 <= v && v <= i64::MAX as i128
        },
    }
}

// ============================================================
// Overflow: the running sums the pivot forms
// ============================================================

pub open spec fn in_i64(v: int) -> bool {
    i64::MIN <= v <= i64::MAX
}

/// Every cell's running total, sale by sale in input order, fits in `i64`.
pub open spec fn cells_fit(evs: Seq<EventV>, g: Granularity) -> bool {
    forall|n: int, k: Pair|
        0 <= n <= evs.len() ==> in_i64(#[trigger] sum_for(evs.take(n), cells_by(g), k))
}

/// The total of the cells whose item (`by_item`) or period key is `x`.
pub open spec fn part_sum(cs: Seq<(Pair, int)>, by_item: bool, x: Seq<char>) -> int
    decreases cs.len(),
{
    if cs.len() == 0 {
        0
    } else {
        part_sum(cs.drop_last(), by_item, x) + if (if by_item {
            cs.last().0.0
        } else {
            cs.last().0.1
        }) == x {
            cs.last().1
        } else {
            0
        }
    }
}

/// Walking the cells in order, every running row, column and grand total
/// fits in `i64`.
pub open spec fn totals_fit(cs: Seq<(Pair, int)>) -> bool {
    &&& forall|m: int, x: Seq<char>|
        0 <= m <= cs.len() ==> in_i64(#[trigger] part_sum(cs.take(m), true, x))
    &&& forall|m: int, x: Seq<char>|
        0 <= m <= cs.len() ==> in_i64(#[trigger] part_sum(cs.take(m), false, x))
    &&& forall|m: int| 0 <= m <= cs.len() ==> in_i64(#[trigger] amounts_sum(cs.take(m)))
}

/// No running sum of the pivot leaves `i64`: each cell summed over its
/// sales in input order, then the rows, columns and grand total summed
/// over the cells in order.
pub open spec fn pivot_fits(evs: Seq<EventV>, g: Granularity) -> bool {
    &&& cells_fit(evs, g)
    &&& forall|cs: Seq<(Pair, int)>| #[trigger] tallies(evs, cells_by(g), cs) ==> totals_fit(cs)
}

/// What the pivot of the sales is: its cells, row and column totals
/// tally the parsed sales, the items and periods are the rows' and
/// columns' keys, each period is labelled, and the grand total is the
/// price of the parsed sales.
pub open spec fn pivot_result(evs: Seq<EventV>, g: Granularity, r: RevenueResult) -> bool {
    &&& tallies(evs, cells_by(g), cells_view(r.cells@))
    &&& tallies(evs, items_by(), totals_view(r.row_totals@))
    &&& tallies(evs, columns_by(g), totals_view(r.col_totals@))
    &&& r.items@.len() == r.row_totals@.len()
    &&& forall|i: int| 0 <= i < r.items@.len() ==> (#[trigger] r.items@[i])@ == r.row_totals@[i].0@
    &&& r.periods@.len() == r.col_totals@.len()
    &&& forall|i: int|
        0 <= i < r.periods@.len() ==> (#[trigger] r.periods@[i]).key@ == r.col_totals@[i].0@
            && labelled(evs, g, r.periods@[i].key@, r.periods@[i].label@)
    &&& r.grand_total == parsed_total(evs)
}

proof fn lemma_abs_len(v: Seq<RevenueEvent>)
    ensures
        abs_total(events_view(v)) <= v.len() * 0x8000_0000_0000_0000,
    decreases v.len(),
{
    if v.len() > 0 {
        lemma_abs_len(v.drop_last());
        assert(events_view(v).drop_last() =~= events_view(v.drop_last()));
    }
}

/// The cells of one row or column, as a filing of the sales.
pub open spec fn part_by(g: Granularity, by_item: bool, x: Seq<char>) -> spec_fn(EventV) -> Option<Pair> {
    |e: EventV|
        match cell_key(e, g) {
            Some(k) => if (if by_item {
                k.0
            } else {
                k.1
            }) == x {
                Some(k)
            } else {
                None
            },
            None => None,
        }
}

proof fn lemma_sum_part(evs: Seq<EventV>, g: Granularity, by_item: bool, x: Seq<char>, k: Pair)
    ensures
        sum_for(evs, part_by(g, by_item, x), k) == if (if by_item {
            k.0
        } else {
            k.1
        }) == x {
            sum_for(evs, cells_by(g), k)
        } else {
            0
        },
    decreases evs.len(),
{
    if evs.len() > 0 {
        lemma_sum_part(evs.drop_last(), g, by_item, x, k);
    }
}

proof fn lemma_part_key_sums(evs: Seq<EventV>, g: Granularity, by_item: bool, x: Seq<char>, cs: Seq<(Pair, int)>)
    requires
        forall|i: int| 0 <= i < cs.len() ==> (#[trigger] cs[i]).1 == sum_for(evs, cells_by(g), cs[i].0),
    ensures
        part_sum(cs, by_item, x) == key_sums(evs, part_by(g, by_item, x), cs),
    decreases cs.len(),
{
    if cs.len() > 0 {
        let d = cs.drop_last();
        assert forall|i: int| 0 <= i < d.len() implies (#[trigger] d[i]).1 == sum_for(
            evs,
            cells_by(g),
            d[i].0,
        ) by {
            assert(d[i] == cs[i]);
        }
        lemma_part_key_sums(evs, g, by_item, x, d);
        assert(cs.last() == cs[cs.len() - 1]);
        lemma_sum_part(evs, g, by_item, x, cs.last().0);
    }
}

proof fn lemma_filed_part(evs: Seq<EventV>, g: Granularity, by_item: bool, x: Seq<char>)
    ensures
        filed_total(evs, part_by(g, by_item, x)) == sum_for(
            evs,
            if by_item {
                items_by()
            } else {
                columns_by(g)
            },
            (x, Seq::<char>::empty()),
        ),
    decreases evs.len(),
{
    if evs.len() > 0 {
        lemma_filed_part(evs.drop_last(), g, by_item, x);
    }
}

/// A row (or column) total is the sum of its cells.
proof fn lemma_part_is_total(evs: Seq<EventV>, g: Granularity, by_item: bool, x: Seq<char>, cs: Seq<(Pair, int)>)
    requires
        tallies(evs, cells_by(g), cs),
    ensures
        part_sum(cs, by_item, x) == sum_for(
            evs,
            if by_item {
                items_by()
            } else {
                columns_by(g)
            },
            (x, Seq::<char>::empty()),
        ),
{
    let f = part_by(g, by_item, x);
    lemma_part_key_sums(evs, g, by_item, x, cs);
    assert forall|i: int, j: int| 0 <= i < j < cs.len() implies cs[i].0 != cs[j].0 by {
        lemma_pair_irreflexive(cs[i].0);
    }
    assert forall|j: int| 0 <= j < evs.len() && (#[trigger] f(evs[j])) is Some implies exists|i: int|
        0 <= i < cs.len() && cs[i].0 == f(evs[j])->0 by {
        assert(cells_by(g)(evs[j]) is Some);
    }
    lemma_key_sums_total(evs, f, cs);
    lemma_filed_part(evs, g, by_item, x);
}

spec fn has_key(t: Seq<(Pair, int)>, k: Pair) -> bool {
    exists|i: int| 0 <= i < t.len() && t[i].0 == k
}

proof fn lemma_sorted_unique(t1: Seq<(Pair, int)>, t2: Seq<(Pair, int)>)
    requires
        forall|i: int, j: int| 0 <= i < j < t1.len() ==> pair_lt(t1[i].0, t1[j].0),
        forall|i: int, j: int| 0 <= i < j < t2.len() ==> pair_lt(t2[i].0, t2[j].0),
        forall|k: Pair| #[trigger] has_key(t1, k) == has_key(t2, k),
        forall|i: int, j: int|
            0 <= i < t1.len() && 0 <= j < t2.len() && t1[i].0 == t2[j].0 ==> t1[i].1 == t2[j].1,
    ensures
        t1 == t2,
    decreases t1.len(),
{
    if t1.len() == 0 {
        if t2.len() > 0 {
            assert(has_key(t2, t2[0].0));
            assert(has_key(t1, t2[0].0));
        }
        assert(t1 =~= t2);
    } else {
        assert(has_key(t1, t1[0].0));
        assert(has_key(t2, t1[0].0));
        let j = choose|j: int| 0 <= j < t2.len() && t2[j].0 == t1[0].0;
        if t2.len() == 0 {
            assert(false);
        }
        assert(has_key(t2, t2[0].0));
        assert(has_key(t1, t2[0].0));
        let i = choose|i: int| 0 <= i < t1.len() && t1[i].0 == t2[0].0;
        if j > 0 {
            assert(pair_lt(t2[0].0, t2[j].0));
            if i > 0 {
                assert(pair_lt(t1[0].0, t1[i].0));
                lemma_pair_transitive(t1[0].0, t2[0].0, t1[0].0);
                lemma_pair_irreflexive(t1[0].0);
            } else {
                lemma_pair_irreflexive(t1[0].0);
            }
        }
        assert(t1[0] == t2[0]);
        let d1 = t1.drop_first();
        let d2 = t2.drop_first();
        assert forall|k: Pair| #[trigger] has_key(d1, k) == has_key(d2, k) by {
            if has_key(d1, k) {
                let i = choose|i: int| 0 <= i < d1.len() && d1[i].0 == k;
                assert(t1[i + 1].0 == k);
                assert(pair_lt(t1[0].0, k));
                lemma_pair_irreflexive(k);
                assert(has_key(t1, k));
                assert(has_key(t2, k));
                let j = choose|j: int| 0 <= j < t2.len() && t2[j].0 == k;
                assert(j != 0);
                assert(d2[j - 1].0 == k);
            }
            if has_key(d2, k) {
                let j = choose|j: int| 0 <= j < d2.len() && d2[j].0 == k;
                assert(t2[j + 1].0 == k);
                assert(pair_lt(t2[0].0, k));
                lemma_pair_irreflexive(k);
                assert(has_key(t2, k));
                assert(has_key(t1, k));
                let i = choose|i: int| 0 <= i < t1.len() && t1[i].0 == k;
                assert(i != 0);
                assert(d1[i - 1].0 == k);
            }
        }
        assert forall|i: int, j: int| 0 <= i < j < d1.len() implies pair_lt(d1[i].0, d1[j].0) by {
            assert(d1[i] == t1[i + 1] && d1[j] == t1[j + 1]);
        }
        assert forall|i: int, j: int| 0 <= i < j < d2.len() implies pair_lt(d2[i].0, d2[j].0) by {
            assert(d2[i] == t2[i + 1] && d2[j] == t2[j + 1]);
        }
        assert forall|i: int, j: int|
            0 <= i < d1.len() && 0 <= j < d2.len() && d1[i].0 == d2[j].0 implies d1[i].1 == d2[j].1 by {
            assert(d1[i] == t1[i + 1] && d2[j] == t2[j + 1]);
        }
        lemma_sorted_unique(d1, d2);
        assert(t1 =~= seq![t1[0]] + d1);
        assert(t2 =~= seq![t2[0]] + d2);
    }
}

/// The tally of the sales under a filing is unique.
proof fn lemma_tallies_unique(evs: Seq<EventV>, f: spec_fn(EventV) -> Option<Pair>, t1: Seq<(Pair, int)>, t2: Seq<(Pair, int)>)
    requires
        tallies(evs, f, t1),
        tallies(evs, f, t2),
    ensures
        t1 == t2,
{
    assert forall|k: Pair| #[trigger] has_key(t1, k) == has_key(t2, k) by {
        if has_key(t1, k) {
            let i = choose|i: int| 0 <= i < t1.len() && t1[i].0 == k;
            assert(t1[i] == t1[i]);
            assert(seen(evs, f, t1[i].0));
            let e = choose|e: int| 0 <= e < evs.len() && f(evs[e]) == Some(k);
            assert(f(evs[e]) is Some);
        }
        if has_key(t2, k) {
            let j = choose|j: int| 0 <= j < t2.len() && t2[j].0 == k;
            assert(t2[j] == t2[j]);
            assert(seen(evs, f, t2[j].0));
            let e = choose|e: int| 0 <= e < evs.len() && f(evs[e]) == Some(k);
            assert(f(evs[e]) is Some);
        }
    }
    assert forall|i: int, j: int|
        0 <= i < t1.len() && 0 <= j < t2.len() && t1[i].0 == t2[j].0 implies t1[i].1 == t2[j].1 by {
        assert(t1[i] == t1[i] && t2[j] == t2[j]);
    }
    lemma_sorted_unique(t1, t2);
}

/// Files every sale.
fn build_pivot(events: &Vec<RevenueEvent>, g: Granularity) -> (r: (PivotState, bool))
    ensures
        built(events_view(events@), g, events@.len() as int, r.0),
        r.1 == cells_fit(events_view(events@), g),
{
    let ghost evs = events_view(events@);
    let mut st = PivotState {
        cells: Vec::new(),
        rows: Vec::new(),
        cols: Vec::new(),
        grand: 0,
        first_year: None,
        multi: false,
    };
    let empty = String::new();
    let mut ok = true;
    let mut n: usize = 0;
    let total = events.len();
    proof {
        assert(evs.take(0) =~= Seq::<EventV>::empty());
        assert(spans_years(evs.take(0)) == false);
        lemma_abs_len(events@);
        assert(total == events@.len());
        assert(abs_total(evs) <= i128::MAX);
    }
    while n < events.len()
        invariant
            n <= evs.len(),
            evs == events_view(events@),
            abs_total(evs) <= i128::MAX,
            empty@ == Seq::<char>::empty(),
            built(evs, g, n as int, st),
            ok == forall|m: int, k: Pair|
                0 <= m <= n ==> in_i64(#[trigger] sum_for(evs.take(m), cells_by(g), k)),
        decreases events.len() - n,
    {
        proof {
            assert(evs[n as int] == sale_v(events@[n as int]));
        }
        let fits = add_sale(&mut st, &events[n], g, &empty, Ghost(evs), Ghost(n as int));
        proof {
            let pre = evs.take(n as int);
            let ev = evs[n as int];
            assert(evs.take(n + 1) =~= pre.push(ev));
            let now_all = forall|m: int, k: Pair|
                0 <= m <= n + 1 ==> in_i64(#[trigger] sum_for(evs.take(m), cells_by(g), k));
            if ok && fits {
                assert forall|m: int, k: Pair| 0 <= m <= n + 1 implies in_i64(
                    #[trigger] sum_for(evs.take(m), cells_by(g), k),
                ) by {
                    if m == n + 1 {
                        lemma_sum_push(pre, ev, cells_by(g), k);
                        assert(in_i64(sum_for(evs.take(n as int), cells_by(g), k)));
                    }
                }
            } else if ok {
                let k = cells_by(g)(ev)->0;
                assert(!in_i64(sum_for(evs.take(n + 1), cells_by(g), k)));
                assert(!now_all);
            } else {
                let (m, k) = choose|m: int, k: Pair|
                    0 <= m <= n && !in_i64(#[trigger] sum_for(evs.take(m), cells_by(g), k));
                assert(!now_all);
            }
        }
        ok = ok && fits;
        n += 1;
    }
    proof {
        assert(evs.take(evs.len() as int) =~= evs);
    }
    (st, ok)
}

/// The pivot from the tallies of every sale, once every running sum is
/// known to fit.
fn finish_pivot(st: PivotState, events: &Vec<RevenueEvent>, g: Granularity) -> (r: RevenueResult)
    requires
        built(events_view(events@), g, events@.len() as int, st),
        cells_fit(events_view(events@), g),
        totals_fit(pairs_of(slots_v(st.cells@))),
    ensures
        pivot_result(events_view(events@), g, r),
{
    let ghost evs = events_view(events@);
    proof {
        assert(evs.take(evs.len() as int) =~= evs);
    }
    let PivotState { cells, rows, cols, grand, first_year, multi } = st;
    let ghost cv = slots_v(cells@);
    let ghost rv = slots_v(rows@);
    let ghost kv = slots_v(cols@);
    proof {
        lemma_tallies(evs, cells_by(g), cv);
        lemma_tallies(evs, items_by(), rv);
        lemma_tallies(evs, columns_by(g), kv);
        let cs = pairs_of(cv);
        assert(cs.take(cs.len() as int) =~= cs);
        assert forall|i: int| 0 <= i < cells@.len() implies in_i64((#[trigger] cells@[i]).amount as int) by {
            assert(cv[i] == slot_v(cells@[i]));
            lemma_slot_at(cv, i);
            assert(in_i64(sum_for(evs.take(evs.len() as int), cells_by(g), cv[i].0)));
        }
        assert forall|i: int| 0 <= i < rows@.len() implies in_i64((#[trigger] rows@[i]).amount as int) by {
            assert(rv[i] == slot_v(rows@[i]));
            lemma_slot_at(rv, i);
            let j = choose|j: int| 0 <= j < evs.len() && items_by()(evs[j]) == Some(rv[i].0);
            lemma_part_is_total(evs, g, true, rv[i].0.0, cs);
            assert(in_i64(part_sum(cs.take(cs.len() as int), true, rv[i].0.0)));
        }
        assert forall|i: int| 0 <= i < cols@.len() implies in_i64((#[trigger] cols@[i]).amount as int) by {
            assert(kv[i] == slot_v(cols@[i]));
            lemma_slot_at(kv, i);
            let j = choose|j: int| 0 <= j < evs.len() && columns_by(g)(evs[j]) == Some(kv[i].0);
            lemma_part_is_total(evs, g, false, kv[i].0.0, cs);
            assert(in_i64(part_sum(cs.take(cs.len() as int), false, kv[i].0.0)));
        }
        assert forall|e: EventV| (#[trigger] cells_by(g)(e)) is Some <==> event_date(e.1) is Some by {}
        lemma_tally_sum(evs, cells_by(g), cs);
        assert(in_i64(amounts_sum(cs.take(cs.len() as int))));
        assert forall|i: int| 0 <= i < rows@.len() implies (#[trigger] rows@[i]).b@ == Seq::<
            char,
        >::empty() by {
            assert(rv[i] == slot_v(rows@[i]));
            lemma_slot_at(rv, i);
            let j = choose|j: int| 0 <= j < evs.len() && items_by()(evs[j]) == Some(rv[i].0);
        }
        assert forall|i: int| 0 <= i < cols@.len() implies (#[trigger] cols@[i]).b@ == Seq::<
            char,
        >::empty() by {
            assert(kv[i] == slot_v(cols@[i]));
            lemma_slot_at(kv, i);
            let j = choose|j: int| 0 <= j < evs.len() && columns_by(g)(evs[j]) == Some(kv[i].0);
        }
    }
    let cell_list = slots_to_cells(&cells);
    let row_totals = slots_to_totals(&rows);
    let col_totals = slots_to_totals(&cols);
    proof {
        assert(totals_view(row_totals@).len() == row_totals@.len());
        assert(totals_view(col_totals@).len() == col_totals@.len());
    }
    let mut items: Vec<String> = Vec::new();
    let mut i: usize = 0;
    while i < rows.len()
        invariant
            i <= rows@.len(),
            items@.len() == i,
            row_totals@.len() == rows@.len(),
            totals_view(row_totals@) == pairs_of(slots_v(rows@)),
            forall|j: int| 0 <= j < i ==> (#[trigger] items@[j])@ == row_totals@[j].0@,
        decreases rows.len() - i,
    {
        assert(totals_view(row_totals@)[i as int].0.0 == row_totals@[i as int].0@);
        assert(pairs_of(slots_v(rows@))[i as int].0.0 == rows@[i as int].a@);
        items.push(rows[i].a.clone());
        i += 1;
    }
    let mut periods: Vec<RevenuePeriod> = Vec::new();
    let mut i: usize = 0;
    while i < cols.len()
        invariant
            i <= cols@.len(),
            periods@.len() == i,
            col_totals@.len() == cols@.len(),
            evs == events_view(events@),
            kv == slots_v(cols@),
            strictly_sorted(kv),
            multi == spans_years(evs),
            totals_view(col_totals@) == pairs_of(kv),
            forall|k: Pair|
                #[trigger] present(kv, k) ==> label_ready(parts_of(kv, k), g) && exists|j: int|
                    0 <= j < evs.len() && column_key(evs[j], g) == Some(k) && period_of(evs[j], g)
                        == parts_of(kv, k),
            forall|j: int|
                0 <= j < i ==> (#[trigger] periods@[j]).key@ == col_totals@[j].0@ && labelled(
                    evs,
                    g,
                    periods@[j].key@,
                    periods@[j].label@,
                ),
        decreases cols.len() - i,
    {
        let s = &cols[i];
        let ghost k = kv[i as int].0;
        proof {
            assert(kv[i as int] == slot_v(*s));
            lemma_slot_at(kv, i as int);
            assert(totals_view(col_totals@)[i as int].0.0 == col_totals@[i as int].0@);
            assert(pairs_of(kv)[i as int].0 == k);
        }
        let ghost j = choose|j: int|
            0 <= j < evs.len() && column_key(evs[j], g) == Some(k) && period_of(evs[j], g)
                == parts_of(kv, k);
        proof {
            let d = event_date(evs[j].1)->0;
            assert(k.0 == period_key_text(period_parts(d, g), g));
        }
        let label = period_label(&s.a, s.parts, g, multi);
        periods.push(RevenuePeriod { key: s.a.clone(), label });
        i += 1;
    }
    RevenueResult {
        periods,
        items,
        cells: cell_list,
        row_totals,
        col_totals,
        grand_total: grand as i64,
    }
}


proof fn lemma_part_bound(cs: Seq<(Pair, int)>, by_item: bool, x: Seq<char>)
    requires
        forall|i: int| 0 <= i < cs.len() ==> in_i64(#[trigger] cs[i].1),
    ensures
        -(cs.len() * 0x8000_0000_0000_0000) <= part_sum(cs, by_item, x) <= cs.len()
            * 0x8000_0000_0000_0000,
        -(cs.len() * 0x8000_0000_0000_0000) <= amounts_sum(cs) <= cs.len() * 0x8000_0000_0000_0000,
    decreases cs.len(),
{
    if cs.len() > 0 {
        let d = cs.drop_last();
        assert forall|i: int| 0 <= i < d.len() implies in_i64(#[trigger] d[i].1) by {
            assert(d[i] == cs[i]);
        }
        lemma_part_bound(d, by_item, x);
        assert(in_i64(cs[cs.len() - 1].1));
    }
}

/// Whether walking the cells in order keeps every running row, column and
/// grand total within `i64`.
fn totals_check(t: &Vec<Slot>) -> (ok: bool)
    requires
        strictly_sorted(slots_v(t@)),
        forall|i: int| 0 <= i < t@.len() ==> in_i64((#[trigger] t@[i]).amount as int),
    ensures
        ok == totals_fit(pairs_of(slots_v(t@))),
{
    let ghost cs = pairs_of(slots_v(t@));
    let empty = String::new();
    let mut rows: Vec<Slot> = Vec::new();
    let mut cols: Vec<Slot> = Vec::new();
    let mut grand: i128 = 0;
    let mut ok = true;
    let mut m: usize = 0;
    let total = t.len();
    proof {
        assert forall|i: int| 0 <= i < cs.len() implies in_i64(#[trigger] cs[i].1) by {
            assert(cs[i].1 == t@[i].amount as int);
        }
        assert(cs.take(0) =~= Seq::<(Pair, int)>::empty());
    }
    while m < t.len()
        invariant
            m <= t@.len() == total,
            cs == pairs_of(slots_v(t@)),
            cs.len() == t@.len(),
            empty@ == Seq::<char>::empty(),
            forall|i: int| 0 <= i < cs.len() ==> in_i64(#[trigger] cs[i].1),
            strictly_sorted(slots_v(rows@)),
            strictly_sorted(slots_v(cols@)),
            forall|x: Seq<char>|
                #[trigger] amount_of(slots_v(rows@), (x, Seq::<char>::empty())) == part_sum(
                    cs.take(m as int),
                    true,
                    x,
                ),
            forall|x: Seq<char>|
                #[trigger] amount_of(slots_v(cols@), (x, Seq::<char>::empty())) == part_sum(
                    cs.take(m as int),
                    false,
                    x,
                ),
            grand == amounts_sum(cs.take(m as int)),
            ok == ((forall|j: int, x: Seq<char>|
                0 <= j <= m ==> in_i64(#[trigger] part_sum(cs.take(j), true, x))) && (forall|
                j: int,
                x: Seq<char>,
            | 0 <= j <= m ==> in_i64(#[trigger] part_sum(cs.take(j), false, x))) && (forall|j: int|
                0 <= j <= m ==> in_i64(#[trigger] amounts_sum(cs.take(j))))),
        decreases t.len() - m,
    {
        let c = &t[m];
        let ghost c0 = cs[m as int];
        let ghost pre = cs.take(m as int);
        let ghost post = cs.take(m + 1);
        proof {
            assert(c0 == ((c.a@, c.b@), c.amount as int));
            assert(post.drop_last() =~= pre);
            assert(post.last() == c0);
            assert forall|i: int| 0 <= i < post.len() implies in_i64(#[trigger] post[i].1) by {
                assert(post[i] == cs[i]);
            }
            lemma_part_bound(post, true, c.a@);
            lemma_part_bound(post, false, c.b@);
            assert(post.len() <= usize::MAX);
        }
        let ghost r0 = slots_v(rows@);
        let ghost k0 = slots_v(cols@);
        tally_add(&mut rows, &c.a, &empty, c.amount, (0, 0, 0));
        tally_add(&mut cols, &c.b, &empty, c.amount, (0, 0, 0));
        grand = grand + c.amount;
        let vr = slot_amount(&rows, &c.a, &empty);
        let vc = slot_amount(&cols, &c.b, &empty);
        proof {
            assert forall|x: Seq<char>| #[trigger] amount_of(slots_v(rows@), (x, Seq::<char>::empty()))
                == part_sum(post, true, x) by {
                assert(amount_of(r0, (x, Seq::<char>::empty())) == part_sum(pre, true, x));
            }
            assert forall|x: Seq<char>| #[trigger] amount_of(slots_v(cols@), (x, Seq::<char>::empty()))
                == part_sum(post, false, x) by {
                assert(amount_of(k0, (x, Seq::<char>::empty())) == part_sum(pre, false, x));
            }
            assert(vr == part_sum(post, true, c.a@));
            assert(vc == part_sum(post, false, c.b@));
            assert(grand == amounts_sum(post));
        }
        let here = i64::MIN as i128 <= vr && vr <= i64::MAX as i128 && i64::MIN as i128 <= vc && vc
            <= i64::MAX as i128 && i64::MIN as i128 <= grand && grand <= i64::MAX as i128;
        proof {
            let all_rows = forall|j: int, x: Seq<char>|
                0 <= j <= m + 1 ==> in_i64(#[trigger] part_sum(cs.take(j), true, x));
            let all_cols = forall|j: int, x: Seq<char>|
                0 <= j <= m + 1 ==> in_i64(#[trigger] part_sum(cs.take(j), false, x));
            let all_grand = forall|j: int| 0 <= j <= m + 1 ==> in_i64(#[trigger] amounts_sum(cs.take(j)));
            if ok && here {
                assert forall|j: int, x: Seq<char>| 0 <= j <= m + 1 implies in_i64(
                    #[trigger] part_sum(cs.take(j), true, x),
                ) by {
                    if j == m + 1 {
                        assert(in_i64(part_sum(cs.take(m as int), true, x)));
                    }
                }
                assert forall|j: int, x: Seq<char>| 0 <= j <= m + 1 implies in_i64(
                    #[trigger] part_sum(cs.take(j), false, x),
                ) by {
                    if j == m + 1 {
                        assert(in_i64(part_sum(cs.take(m as int), false, x)));
                    }
                }
                assert(all_rows && all_cols && all_grand);
            } else if ok {
                if !in_i64(vr as int) {
                    assert(!in_i64(part_sum(cs.take(m + 1), true, c.a@)));
                    assert(!all_rows);
                } else if !in_i64(vc as int) {
                    assert(!in_i64(part_sum(cs.take(m + 1), false, c.b@)));
                    assert(!all_cols);
                } else {
                    assert(!in_i64(amounts_sum(cs.take(m + 1))));
                    assert(!all_grand);
                }
            } else {
                if !(forall|j: int, x: Seq<char>|
                    0 <= j <= m ==> in_i64(#[trigger] part_sum(cs.take(j), true, x))) {
                    let (j, x) = choose|j: int, x: Seq<char>|
                        0 <= j <= m && !in_i64(#[trigger] part_sum(cs.take(j), true, x));
                    assert(!all_rows);
                } else if !(forall|j: int, x: Seq<char>|
                    0 <= j <= m ==> in_i64(#[trigger] part_sum(cs.take(j), false, x))) {
                    let (j, x) = choose|j: int, x: Seq<char>|
                        0 <= j <= m && !in_i64(#[trigger] part_sum(cs.take(j), false, x));
                    assert(!all_cols);
                } else {
                    let j = choose|j: int| 0 <= j <= m && !in_i64(#[trigger] amounts_sum(cs.take(j)));
                    assert(!all_grand);
                }
            }
        }
        ok = ok && here;
        m += 1;
    }
    ok
}

/// The pivot of the sales where every running sum fits in `i64`, and
/// `None` where one would overflow.
pub fn aggregate_revenue_checked(events: Vec<RevenueEvent>, granularity: Granularity) -> (r: Option<
    RevenueResult,
>)
    ensures
        r is Some <==> pivot_fits(events_view(events@), granularity),
        r matches Some(p) ==> pivot_result(events_view(events@), granularity, p),
{
    let ghost evs = events_view(events@);
    let g = granularity;
    let (st, fits) = build_pivot(&events, g);
    let ghost cv = slots_v(st.cells@);
    let ghost cs = pairs_of(cv);
    proof {
        assert(evs.take(evs.len() as int) =~= evs);
        lemma_tallies(evs, cells_by(g), cv);
    }
    if !fits {
        return None;
    }
    proof {
        assert forall|i: int| 0 <= i < st.cells@.len() implies in_i64((#[trigger] st.cells@[i]).amount as int) by {
            assert(cv[i] == slot_v(st.cells@[i]));
            lemma_slot_at(cv, i);
            assert(in_i64(sum_for(evs.take(evs.len() as int), cells_by(g), cv[i].0)));
        }
    }
    if !totals_check(&st.cells) {
        return None;
    }
    proof {
        assert forall|c2: Seq<(Pair, int)>| #[trigger] tallies(evs, cells_by(g), c2) implies totals_fit(c2) by {
            lemma_tallies_unique(evs, cells_by(g), cs, c2);
        }
    }
    Some(finish_pivot(st, &events, g))
}

/// Buckets the sales by `(item, period)` and builds the pivot: periods in
/// key order (the keys `YYYY-MM-DD`, `YYYY-Www`, `YYYY-MM` sort by time),
/// items in name order, cells in (item, period) order, with row, column and
/// grand totals. Sales whose timestamp does not parse are skipped. Daily
/// and weekly labels carry the year when the sales span more than one
/// calendar year.
pub fn aggregate_revenue(events: Vec<RevenueEvent>, granularity: Granularity) -> (r: RevenueResult)
    requires
        pivot_fits(events_view(events@), granularity),
    ensures
        pivot_result(events_view(events@), granularity, r),
{
    let (st, _) = build_pivot(&events, granularity);
    proof {
        let evs = events_view(events@);
        assert(evs.take(evs.len() as int) =~= evs);
        lemma_tallies(evs, cells_by(granularity), slots_v(st.cells@));
        assert(tallies(evs, cells_by(granularity), pairs_of(slots_v(st.cells@))));
    }
    finish_pivot(st, &events, granularity)
}

// ============================================================
// Laws
// ============================================================

/// The sum of the amounts of a tally.
pub open spec fn amounts_sum(t: Seq<(Pair, int)>) -> int
    decreases t.len(),
{
    if t.len() == 0 {
        0
    } else {
        amounts_sum(t.drop_last()) + t.last().1
    }
}

/// How often `x` is a key of `t`.
spec fn key_count(t: Seq<(Pair, int)>, x: Pair) -> int
    decreases t.len(),
{
    if t.len() == 0 {
        0
    } else {
        key_count(t.drop_last(), x) + if t.last().0 == x {
            1int
        } else {
            0
        }
    }
}

/// The sums of `f` over the keys of `t`, each key's own sum.
spec fn key_sums(evs: Seq<EventV>, f: spec_fn(EventV) -> Option<Pair>, t: Seq<(Pair, int)>) -> int
    decreases t.len(),
{
    if t.len() == 0 {
        0
    } else {
        key_sums(evs, f, t.drop_last()) + sum_for(evs, f, t.last().0)
    }
}

/// The total price of the sales that `f` files under some key.
spec fn filed_total(evs: Seq<EventV>, f: spec_fn(EventV) -> Option<Pair>) -> int
    decreases evs.len(),
{
    if evs.len() == 0 {
        0
    } else {
        filed_total(evs.drop_last(), f) + if f(evs.last()) is Some {
            evs.last().2
        } else {
            0
        }
    }
}

proof fn lemma_key_count_distinct(t: Seq<(Pair, int)>, x: Pair)
    requires
        forall|i: int, j: int| 0 <= i < j < t.len() ==> t[i].0 != t[j].0,
    ensures
        key_count(t, x) == if exists|i: int| 0 <= i < t.len() && t[i].0 == x {
            1int
        } else {
            0
        },
    decreases t.len(),
{
    if t.len() > 0 {
        let d = t.drop_last();
        assert forall|i: int, j: int| 0 <= i < j < d.len() implies d[i].0 != d[j].0 by {
            assert(d[i] == t[i] && d[j] == t[j]);
        }
        lemma_key_count_distinct(d, x);
        if exists|i: int| 0 <= i < d.len() && d[i].0 == x {
            let i = choose|i: int| 0 <= i < d.len() && d[i].0 == x;
            assert(t[i] == d[i]);
            assert(t.last().0 != x);
        }
        if exists|i: int| 0 <= i < t.len() && t[i].0 == x {
            let i = choose|i: int| 0 <= i < t.len() && t[i].0 == x;
            if i < d.len() {
                assert(d[i] == t[i]);
            }
        }
    }
}

/// Adding one sale adds its price to the key sums once per occurrence of
/// its key.
proof fn lemma_key_sums_push(pre: Seq<EventV>, e: EventV, f: spec_fn(EventV) -> Option<Pair>, t: Seq<(Pair, int)>)
    ensures
        key_sums(pre.push(e), f, t) == key_sums(pre, f, t) + match f(e) {
            Some(k) => key_count(t, k) * e.2,
            None => 0,
        },
    decreases t.len(),
{
    if t.len() > 0 {
        lemma_key_sums_push(pre, e, f, t.drop_last());
        lemma_sum_push(pre, e, f, t.last().0);
        match f(e) {
            Some(k) => {
                let a = key_count(t, k);
                let b = key_count(t.drop_last(), k);
                let c: int = if t.last().0 == k {
                    1int
                } else {
                    0
                };
                let p = e.2;
                assert(a == b + c);
                assert(a * p == b * p + c * p) by (nonlinear_arith)
                    requires
                        a == b + c,
                ;
            },
            None => {},
        }
    }
}

proof fn lemma_key_sums_empty(f: spec_fn(EventV) -> Option<Pair>, t: Seq<(Pair, int)>)
    ensures
        key_sums(Seq::<EventV>::empty(), f, t) == 0,
    decreases t.len(),
{
    if t.len() > 0 {
        lemma_key_sums_empty(f, t.drop_last());
    }
}

/// Over distinct keys that cover every key of the sales, the key sums add
/// up to the filed total.
proof fn lemma_key_sums_total(evs: Seq<EventV>, f: spec_fn(EventV) -> Option<Pair>, t: Seq<(Pair, int)>)
    requires
        forall|i: int, j: int| 0 <= i < j < t.len() ==> t[i].0 != t[j].0,
        forall|j: int|
            0 <= j < evs.len() && (#[trigger] f(evs[j])) is Some ==> exists|i: int|
                0 <= i < t.len() && t[i].0 == f(evs[j])->0,
    ensures
        key_sums(evs, f, t) == filed_total(evs, f),
    decreases evs.len(),
{
    if evs.len() == 0 {
        lemma_key_sums_empty(f, t);
        assert(evs =~= Seq::<EventV>::empty());
    } else {
        let pre = evs.drop_last();
        let e = evs.last();
        assert(evs =~= pre.push(e));
        assert forall|j: int|
            0 <= j < pre.len() && (#[trigger] f(pre[j])) is Some implies exists|i: int|
                0 <= i < t.len() && t[i].0 == f(pre[j])->0 by {
            assert(pre[j] == evs[j]);
            assert(f(evs[j]) is Some);
        }
        lemma_key_sums_total(pre, f, t);
        lemma_key_sums_push(pre, e, f, t);
        assert(evs.drop_last() == pre);
        assert(evs[evs.len() - 1] == e);
        if let Some(k) = f(e) {
            assert(f(evs[evs.len() - 1]) is Some);
            lemma_key_count_distinct(t, k);
            assert(key_count(t, k) == 1);
            assert(key_sums(evs, f, t) == key_sums(pre, f, t) + e.2);
        } else {
            assert(key_sums(evs, f, t) == key_sums(pre, f, t));
        }
        assert(filed_total(evs, f) == filed_total(pre, f) + if f(e) is Some {
            e.2
        } else {
            0
        });
    }
}

proof fn lemma_amounts_are_key_sums(evs: Seq<EventV>, f: spec_fn(EventV) -> Option<Pair>, t: Seq<(Pair, int)>)
    requires
        forall|i: int| 0 <= i < t.len() ==> (#[trigger] t[i]).1 == sum_for(evs, f, t[i].0),
    ensures
        amounts_sum(t) == key_sums(evs, f, t),
    decreases t.len(),
{
    if t.len() > 0 {
        let d = t.drop_last();
        assert forall|i: int| 0 <= i < d.len() implies (#[trigger] d[i]).1 == sum_for(evs, f, d[i].0) by {
            assert(d[i] == t[i]);
        }
        lemma_amounts_are_key_sums(evs, f, d);
        assert(t.last() == t[t.len() - 1]);
    }
}

proof fn lemma_filed_is_parsed(evs: Seq<EventV>, f: spec_fn(EventV) -> Option<Pair>)
    requires
        forall|e: EventV| (#[trigger] f(e)) is Some <==> event_date(e.1) is Some,
    ensures
        filed_total(evs, f) == parsed_total(evs),
    decreases evs.len(),
{
    if evs.len() > 0 {
        lemma_filed_is_parsed(evs.drop_last(), f);
        assert(f(evs.last()) is Some <==> event_date(evs.last().1) is Some);
    }
}

/// A tally adds up to the total of the sales it files.
pub proof fn lemma_tally_sum(evs: Seq<EventV>, f: spec_fn(EventV) -> Option<Pair>, t: Seq<(Pair, int)>)
    requires
        tallies(evs, f, t),
        forall|e: EventV| (#[trigger] f(e)) is Some <==> event_date(e.1) is Some,
    ensures
        amounts_sum(t) == parsed_total(evs),
{
    lemma_amounts_are_key_sums(evs, f, t);
    assert forall|i: int, j: int| 0 <= i < j < t.len() implies t[i].0 != t[j].0 by {
        lemma_pair_irreflexive(t[i].0);
    }
    lemma_key_sums_total(evs, f, t);
    lemma_filed_is_parsed(evs, f);
}

/// The pivot adds up: the cells, the row totals and the column totals each
/// sum to the grand total, the price of every sale whose timestamp parses.
pub proof fn law_pivot_totals_agree(
    evs: Seq<EventV>,
    g: Granularity,
    cells: Seq<(Pair, int)>,
    rows: Seq<(Pair, int)>,
    cols: Seq<(Pair, int)>,
)
    requires
        tallies(evs, cells_by(g), cells),
        tallies(evs, items_by(), rows),
        tallies(evs, columns_by(g), cols),
    ensures
        amounts_sum(cells) == parsed_total(evs),
        amounts_sum(rows) == parsed_total(evs),
        amounts_sum(cols) == parsed_total(evs),
{
    assert forall|e: EventV| (#[trigger] cells_by(g)(e)) is Some <==> event_date(e.1) is Some by {}
    assert forall|e: EventV| (#[trigger] items_by()(e)) is Some <==> event_date(e.1) is Some by {}
    assert forall|e: EventV| (#[trigger] columns_by(g)(e)) is Some <==> event_date(e.1) is Some by {}
    lemma_tally_sum(evs, cells_by(g), cells);
    lemma_tally_sum(evs, items_by(), rows);
    lemma_tally_sum(evs, columns_by(g), cols);
}

} // verus!
