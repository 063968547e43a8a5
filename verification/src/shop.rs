//! The stall's shop log book: splitting its body into timestamped entries,
//! reading each entry's action, and numbering them oldest first.
//!
//! The entry and action shapes are regular expressions run by the `regex`
//! crate; what they capture is named here, and everything built from the
//! captures is proved. Prices stay as the texts the game wrote: turning them
//! into per-unit amounts is floating-point work left to the caller.

use vstd::prelude::*;
use crate::player_events::ostr;
use crate::stall_year_resolver::{
    opt_view, resolve_timestamps_oldest_first, resolved_entry, str_views, walk_fits,
    walk_state,
};
use crate::text::{
    chars_of, find, parse_i64, parse_signed, replace, replace_chars, string_of, trim,
    trim_end_by, trim_end_class, trim_ws, CharClass,
};

verus! {

// ============================================================
// Patterns
// ============================================================

/// `"Day Mon DD HH:MM - "`, the start of every entry.
pub open spec fn entry_pattern() -> Seq<char> {
    "(?m)([A-Z][a-z]{2} [A-Z][a-z]{2} \\d{1,2} \\d{1,2}:\\d{2}) - "@
}

/// `MrBonq bought Quality Reins at a cost of 4500 per 1 = 4500`, with an
/// optional stack count `x5` after the item.
pub open spec fn bought_pattern() -> Seq<char> {
    "^(?P<player>.+?) bought (?P<item>.+?)(?: ?x(?P<qty>\\d+))? at a cost of (?P<unit>\\d+) per (?P<qty_unit>\\d+) = (?P<total>\\d+)"@
}

/// `Deradon added Barley Seeds x36 to shop`.
pub open spec fn added_pattern() -> Seq<char> {
    "^(?P<player>.+?) added (?P<item>.+?)(?: ?x(?P<qty>\\d+))? to shop"@
}

/// `Deradon removed Decent Horseshoes from shop`.
pub open spec fn removed_pattern() -> Seq<char> {
    "^(?P<player>.+?) removed (?P<item>.+?)(?: ?x(?P<qty>\\d+))? from shop"@
}

/// `Deradon configured Barley Seedsx36 to cost 3000 per 2.`
pub open spec fn configured_pattern() -> Seq<char> {
    "^(?P<player>.+?) configured (?P<item>.+?)(?: ?x(?P<qty>\\d+))? to cost (?P<unit>\\d+) per (?P<qty_unit>\\d+)"@
}

/// `Deradon made Nice Saddle visible in shop at a cost of 4000 per 1`.
pub open spec fn visible_pattern() -> Seq<char> {
    "^(?P<player>.+?) made (?P<item>.+?)(?: ?x(?P<qty>\\d+))? visible in shop at a cost of (?P<unit>\\d+) per (?P<qty_unit>\\d+)"@
}

/// `Deradon collected 30500 Councils from customer purchases`.
pub open spec fn collected_pattern() -> Seq<char> {
    "^(?P<player>.+?) collected (?P<total>\\d+) Councils from customer purchases"@
}

/// The patterns this module compiles; each is a valid regular expression.
pub open spec fn shop_pattern(p: Seq<char>) -> bool {
    ||| p == entry_pattern()
    ||| p == bought_pattern()
    ||| p == added_pattern()
    ||| p == removed_pattern()
    ||| p == configured_pattern()
    ||| p == visible_pattern()
    ||| p == collected_pattern()
}

/// The successive non-overlapping matches of `pattern` in `text`, as
/// character positions `[start, end)`.
pub uninterp spec fn regex_match_spans(pattern: Seq<char>, text: Seq<char>) -> Seq<(int, int)>;

/// regex: `Regex::new(pattern)` and `find_iter(text)`, each match read as
/// character positions. The result is named `regex_match_spans`; what is
/// claimed besides is what the crate documents of `find_iter`: the matches
/// lie within the text and come in order without overlapping.
#[verifier::external_body]
fn match_spans(pattern: &str, text: &str) -> (r: Vec<(usize, usize)>)
    requires
        shop_pattern(pattern@),
    ensures
        r@.map_values(|p: (usize, usize)| (p.0 as int, p.1 as int)) == regex_match_spans(
            pattern@,
            text@,
        ),
        forall|i: int| 0 <= i < r@.len() ==> (#[trigger] r@[i]).0 <= r@[i].1 <= text@.len(),
        forall|i: int, j: int| 0 <= i < j < r@.len() ==> r@[i].1 <= r@[j].0,
{
    let re = regex::Regex::new(pattern).unwrap();
    let mut spans: Vec<(usize, usize)> = Vec::new();
    for m in re.find_iter(text) {
        spans.push((text[..m.start()].chars().count(), text[..m.end()].chars().count()));
    }
    spans
}

/// The groups of the first match of `pattern` in `text` (group 0 is the
/// whole match), each with its text when it took part in the match.
pub uninterp spec fn regex_first_captures(pattern: Seq<char>, text: Seq<char>) -> Option<
    Seq<Option<Seq<char>>>,
>;

/// regex: `Regex::new(pattern)` and `captures(text)`, every group read out
/// with `Captures::get`. The result is named `regex_first_captures`.
#[verifier::external_body]
fn first_captures(pattern: &str, text: &str) -> (r: Option<Vec<Option<String>>>)
    requires
        shop_pattern(pattern@),
    ensures
        match r {
            Some(v) => regex_first_captures(pattern@, text@) == Some(
                v@.map_values(|g: Option<String>| ostr(g)),
            ),
            None => regex_first_captures(pattern@, text@) is None,
        },
{
    let re = regex::Regex::new(pattern).unwrap();
    let caps = re.captures(text)?;
    let mut groups: Vec<Option<String>> = Vec::new();
    for i in 0..caps.len() {
        groups.push(
            match caps.get(i) {
                Some(m) => Some(m.as_str().to_string()),
                None => None,
            },
        );
    }
    Some(groups)
}

// ============================================================
// One entry
// ============================================================

/// What a shop log entry records.
#[derive(Debug, Clone, Copy, PartialEq, Eq, Structural)]
pub enum ShopAction {
    Bought,
    Added,
    Removed,
    Configured,
    Visible,
    Collected,
    Unknown,
}

pub open spec fn action_text(a: ShopAction) -> Seq<char> {
    match a {
        ShopAction::Bought => "bought"@,
        ShopAction::Added => "added"@,
        ShopAction::Removed => "removed"@,
        ShopAction::Configured => "configured"@,
        ShopAction::Visible => "visible"@,
        ShopAction::Collected => "collected"@,
        ShopAction::Unknown => "unknown"@,
    }
}

pub fn action_str(a: ShopAction) -> (r: &'static str)
    ensures
        r@ == action_text(a),
{
    match a {
        ShopAction::Bought => "bought",
        ShopAction::Added => "added",
        ShopAction::Removed => "removed",
        ShopAction::Configured => "configured",
        ShopAction::Visible => "visible",
        ShopAction::Collected => "collected",
        ShopAction::Unknown => "unknown",
    }
}

/// Only the stall's owner adds, removes, configures, shows or collects.
pub open spec fn owner_action(a: ShopAction) -> bool {
    a != ShopAction::Bought && a != ShopAction::Unknown
}

/// The action of a message and its captures: the first pattern that
/// matches, in the order bought, added, removed, configured, visible,
/// collected.
pub open spec fn classify(msg: Seq<char>) -> (ShopAction, Seq<Option<Seq<char>>>) {
    match regex_first_captures(bought_pattern(), msg) {
        Some(c) => (ShopAction::Bought, c),
        None => match regex_first_captures(added_pattern(), msg) {
            Some(c) => (ShopAction::Added, c),
            None => match regex_first_captures(removed_pattern(), msg) {
                Some(c) => (ShopAction::Removed, c),
                None => match regex_first_captures(configured_pattern(), msg) {
                    Some(c) => (ShopAction::Configured, c),
                    None => match regex_first_captures(visible_pattern(), msg) {
                        Some(c) => (ShopAction::Visible, c),
                        None => match regex_first_captures(collected_pattern(), msg) {
                            Some(c) => (ShopAction::Collected, c),
                            None => (ShopAction::Unknown, Seq::empty()),
                        },
                    },
                },
            },
        },
    }
}

/// Group `i` of a capture list (absent past its end).
pub open spec fn group(c: Seq<Option<Seq<char>>>, i: int) -> Option<Seq<char>> {
    if 0 <= i < c.len() {
        c[i]
    } else {
        None
    }
}

pub open spec fn text_or_empty(o: Option<Seq<char>>) -> Seq<char> {
    match o {
        Some(s) => s,
        None => Seq::empty(),
    }
}

/// An `i64` read from digits, or `d` where they do not parse.
pub open spec fn i64_or(s: Seq<char>, d: int) -> int {
    match parse_signed(s, i64::MAX as nat) {
        Some(v) => v,
        None => d,
    }
}

pub open spec fn player_of(a: ShopAction, c: Seq<Option<Seq<char>>>) -> Seq<char> {
    if a == ShopAction::Unknown {
        Seq::empty()
    } else {
        text_or_empty(group(c, 1))
    }
}

pub open spec fn item_of(a: ShopAction, c: Seq<Option<Seq<char>>>) -> Option<Seq<char>> {
    if a == ShopAction::Collected || a == ShopAction::Unknown {
        None
    } else {
        Some(text_or_empty(group(c, 2)))
    }
}

/// The unit count: the stack count where one is written (1 where it does
/// not parse), else 1. A sale without a stack count has none yet: it
/// follows from the price.
pub open spec fn quantity_of(a: ShopAction, c: Seq<Option<Seq<char>>>) -> Option<int> {
    if a == ShopAction::Collected || a == ShopAction::Unknown {
        Some(1)
    } else {
        match group(c, 3) {
            Some(q) => Some(i64_or(q, 1)),
            None => if a == ShopAction::Bought {
                None
            } else {
                Some(1)
            },
        }
    }
}

/// The listed price and the number of units it is for, as written.
pub open spec fn price_of(a: ShopAction, c: Seq<Option<Seq<char>>>) -> Option<(Seq<char>, Seq<char>)> {
    if a == ShopAction::Bought || a == ShopAction::Configured || a == ShopAction::Visible {
        Some((text_or_empty(group(c, 4)), text_or_empty(group(c, 5))))
    } else {
        None
    }
}

pub open spec fn total_of(a: ShopAction, c: Seq<Option<Seq<char>>>) -> Option<int> {
    if a == ShopAction::Bought {
        Some(i64_or(text_or_empty(group(c, 6)), 0))
    } else if a == ShopAction::Collected {
        Some(i64_or(text_or_empty(group(c, 2)), 0))
    } else {
        None
    }
}

/// One entry of a shop log, its prices as written.
#[derive(Debug, Clone)]
pub struct ShopEntryRecord {
    /// Position counted from the oldest entry, stable as new entries arrive.
    pub entry_index: i64,
    /// `"Day Mon DD HH:MM"` as the game wrote it.
    pub timestamp: String,
    /// `YYYY-MM-DD HH:MM:SS`, once a year has been resolved.
    pub event_at: Option<String>,
    pub action: String,
    pub player: String,
    pub item: Option<String>,
    /// `None` for a sale without a stack count.
    pub quantity: Option<i64>,
    /// `(price, units)` of the listing, as written.
    pub price_text: Option<(String, String)>,
    pub price_total: Option<i64>,
    pub raw_message: String,
}

pub open spec fn opt_int(o: Option<i64>) -> Option<int> {
    match o {
        Some(v) => Some(v as int),
        None => None,
    }
}

pub open spec fn opt_pair(o: Option<(String, String)>) -> Option<(Seq<char>, Seq<char>)> {
    match o {
        Some(p) => Some((p.0@, p.1@)),
        None => None,
    }
}

/// `e` is the reading of message `msg` stamped `ts`, at position `index`.
pub open spec fn reads_as(e: ShopEntryRecord, index: int, ts: Seq<char>, msg: Seq<char>) -> bool {
    reads_with(e, index, ts, msg, classify(msg).0, classify(msg).1)
}

/// The entry read from a message that the patterns classified as `a`
/// with capture groups `c`.
pub open spec fn reads_with(
    e: ShopEntryRecord,
    index: int,
    ts: Seq<char>,
    msg: Seq<char>,
    a: ShopAction,
    c: Seq<Option<Seq<char>>>,
) -> bool {
    &&& e.entry_index == index
    &&& e.timestamp@ == ts
    &&& e.action@ == action_text(a)
    &&& e.player@ == player_of(a, c)
    &&& ostr(e.item) == item_of(a, c)
    &&& opt_int(e.quantity) == quantity_of(a, c)
    &&& opt_pair(e.price_text) == price_of(a, c)
    &&& opt_int(e.price_total) == total_of(a, c)
    &&& e.raw_message@ == msg
}

fn group_at(c: &Vec<Option<String>>, i: usize) -> (r: String)
    ensures
        r@ == text_or_empty(group(c@.map_values(|g: Option<String>| ostr(g)), i as int)),
{
    if i < c.len() {
        match &c[i] {
            Some(s) => s.clone(),
            None => String::new(),
        }
    } else {
        String::new()
    }
}

fn group_opt(c: &Vec<Option<String>>, i: usize) -> (r: Option<String>)
    ensures
        ostr(r) == group(c@.map_values(|g: Option<String>| ostr(g)), i as int),
{
    if i < c.len() {
        match &c[i] {
            Some(s) => Some(s.clone()),
            None => None,
        }
    } else {
        None
    }
}

fn i64_text_or(s: &String, d: i64) -> (r: i64)
    ensures
        r == i64_or(s@, d as int),
{
    let c = chars_of(s.as_str());
    match parse_i64(c.as_slice()) {
        Some(v) => v,
        None => d,
    }
}

/// The action and captures of a message.
fn classify_message(msg: &str) -> (r: (ShopAction, Vec<Option<String>>))
    ensures
        classify(msg@) == (r.0, r.1@.map_values(|g: Option<String>| ostr(g))),
{
    if let Some(c) = first_captures(
        "^(?P<player>.+?) bought (?P<item>.+?)(?: ?x(?P<qty>\\d+))? at a cost of (?P<unit>\\d+) per (?P<qty_unit>\\d+) = (?P<total>\\d+)",
        msg,
    ) {
        return (ShopAction::Bought, c);
    }
    if let Some(c) = first_captures(
        "^(?P<player>.+?) added (?P<item>.+?)(?: ?x(?P<qty>\\d+))? to shop",
        msg,
    ) {
        return (ShopAction::Added, c);
    }
    if let Some(c) = first_captures(
        "^(?P<player>.+?) removed (?P<item>.+?)(?: ?x(?P<qty>\\d+))? from shop",
        msg,
    ) {
        return (ShopAction::Removed, c);
    }
    if let Some(c) = first_captures(
        "^(?P<player>.+?) configured (?P<item>.+?)(?: ?x(?P<qty>\\d+))? to cost (?P<unit>\\d+) per (?P<qty_unit>\\d+)",
        msg,
    ) {
        return (ShopAction::Configured, c);
    }
    if let Some(c) = first_captures(
        "^(?P<player>.+?) made (?P<item>.+?)(?: ?x(?P<qty>\\d+))? visible in shop at a cost of (?P<unit>\\d+) per (?P<qty_unit>\\d+)",
        msg,
    ) {
        return (ShopAction::Visible, c);
    }
    if let Some(c) = first_captures(
        "^(?P<player>.+?) collected (?P<total>\\d+) Councils from customer purchases",
        msg,
    ) {
        return (ShopAction::Collected, c);
    }
    let empty: Vec<Option<String>> = Vec::new();
    proof {
        assert(empty@.map_values(|g: Option<String>| ostr(g)) =~= Seq::<Option<Seq<char>>>::empty());
    }
    (ShopAction::Unknown, empty)
}

/// Reads one entry's message.
pub fn read_entry(entry_index: i64, timestamp: &str, message: &str) -> (r: ShopEntryRecord)
    ensures
        reads_as(r, entry_index as int, timestamp@, message@),
        r.event_at is None,
{
    let (a, c) = classify_message(message);
    entry_from_groups(entry_index, timestamp, message, a, c)
}

/// The entry of a message that the patterns classified as `a`, with the
/// capture groups `c` (player, item, quantity, unit price, per, total; a
/// collection's total second).
pub fn entry_from_groups(
    entry_index: i64,
    timestamp: &str,
    message: &str,
    a: ShopAction,
    c: Vec<Option<String>>,
) -> (r: ShopEntryRecord)
    ensures
        reads_with(
            r,
            entry_index as int,
            timestamp@,
            message@,
            a,
            c@.map_values(|g: Option<String>| ostr(g)),
        ),
        r.event_at is None,
{
    let ghost cv = c@.map_values(|g: Option<String>| ostr(g));
    let none_word = a == ShopAction::Unknown;
    let no_item = a == ShopAction::Collected || none_word;
    let player = if none_word {
        String::new()
    } else {
        group_at(&c, 1)
    };
    let item = if no_item {
        None
    } else {
        Some(group_at(&c, 2))
    };
    let quantity = if no_item {
        Some(1)
    } else {
        match group_opt(&c, 3) {
            Some(q) => Some(i64_text_or(&q, 1)),
            None => if a == ShopAction::Bought {
                None
            } else {
                Some(1)
            },
        }
    };
    let priced = a == ShopAction::Bought || a == ShopAction::Configured || a == ShopAction::Visible;
    let price_text = if priced {
        Some((group_at(&c, 4), group_at(&c, 5)))
    } else {
        None
    };
    let price_total = if a == ShopAction::Bought {
        Some(i64_text_or(&group_at(&c, 6), 0))
    } else if a == ShopAction::Collected {
        Some(i64_text_or(&group_at(&c, 2), 0))
    } else {
        None
    };
    ShopEntryRecord {
        entry_index,
        timestamp: timestamp.to_string(),
        event_at: None,
        action: action_str(a).to_string(),
        player,
        item,
        quantity,
        price_text,
        price_total,
        raw_message: message.to_string(),
    }
}

// ============================================================
// The book
// ============================================================

/// The book body with ProcessBook's escaped `\n` pairs made real newlines.
pub open spec fn unescaped(content: Seq<char>) -> Seq<char> {
    replace(content, seq!['\\', 'n'], seq!['\n'])
}

/// The timestamp of entry start `k`: the match without its trailing ` - `.
pub open spec fn span_stamp(c: Seq<char>, spans: Seq<(int, int)>, k: int) -> Seq<char> {
    trim(trim_end_by(c.subrange(spans[k].0, spans[k].1), CharClass::SpaceOrDash))
}

/// Where the message after entry start `k` ends: at the next entry start,
/// or at the end of the body.
pub open spec fn span_end(c: Seq<char>, spans: Seq<(int, int)>, k: int) -> int {
    if k + 1 < spans.len() {
        spans[k + 1].0
    } else {
        c.len() as int
    }
}

pub open spec fn span_message(c: Seq<char>, spans: Seq<(int, int)>, k: int) -> Seq<char> {
    trim(c.subrange(spans[k].1, span_end(c, spans, k)))
}

/// `(timestamp, message)` of the first `k` entry starts, in book order,
/// leaving out those with an empty message.
pub open spec fn entries_upto(c: Seq<char>, spans: Seq<(int, int)>, k: nat) -> Seq<(Seq<char>, Seq<char>)>
    decreases k,
{
    if k == 0 {
        Seq::empty()
    } else {
        let prev = entries_upto(c, spans, (k - 1) as nat);
        if span_message(c, spans, k - 1).len() == 0 {
            prev
        } else {
            prev.push((span_stamp(c, spans, k - 1), span_message(c, spans, k - 1)))
        }
    }
}

/// The entries of a book, oldest first (the game writes them newest
/// first).
pub open spec fn book_entries(content: Seq<char>) -> Seq<(Seq<char>, Seq<char>)> {
    let c = unescaped(content);
    let spans = regex_match_spans(entry_pattern(), c);
    entries_upto(c, spans, spans.len()).reverse()
}

pub open spec fn book_stamps(book: Seq<(Seq<char>, Seq<char>)>) -> Seq<Seq<char>> {
    book.map_values(|e: (Seq<char>, Seq<char>)| e.0)
}

/// The player of the first owner action, oldest first.
pub open spec fn first_owner(book: Seq<(Seq<char>, Seq<char>)>) -> Option<Seq<char>>
    decreases book.len(),
{
    if book.len() == 0 {
        None
    } else {
        let (a, c) = classify(book[0].1);
        if owner_action(a) {
            Some(player_of(a, c))
        } else {
            first_owner(book.drop_first())
        }
    }
}

/// A parsed shop log book; prices as written.
#[derive(Debug, Clone)]
pub struct ShopLogRecord {
    pub log_timestamp: String,
    pub title: String,
    pub entries: Vec<ShopEntryRecord>,
    /// The player of the first owner-only action, a hint of whose stall it is.
    pub owner: Option<String>,
}

proof fn lemma_replace_shrinks(s: Seq<char>, pat: Seq<char>, rep: Seq<char>)
    requires
        pat.len() > 0,
        rep.len() <= pat.len(),
    ensures
        replace(s, pat, rep).len() <= s.len(),
    decreases s.len(),
{
    match find(s, pat) {
        None => {},
        Some(i) => if 0 <= i && i + pat.len() <= s.len() {
            lemma_replace_shrinks(s.skip(i + pat.len()), pat, rep);
        },
    }
}

pub open spec fn spans_int(v: Seq<(usize, usize)>) -> Seq<(int, int)> {
    v.map_values(|p: (usize, usize)| (p.0 as int, p.1 as int))
}

/// The `(timestamp, message)` pairs of a body, in book order.
fn split_book(c: &Vec<char>, text: &str) -> (r: Vec<(Vec<char>, Vec<char>)>)
    requires
        text@ == c@,
    ensures
        r@.map_values(|e: (Vec<char>, Vec<char>)| (e.0@, e.1@)) == entries_upto(
            c@,
            regex_match_spans(entry_pattern(), c@),
            regex_match_spans(entry_pattern(), c@).len(),
        ),
        r@.len() <= c@.len(),
{
    let spans = match_spans("(?m)([A-Z][a-z]{2} [A-Z][a-z]{2} \\d{1,2} \\d{1,2}:\\d{2}) - ", text);
    entries_at_spans(c, &spans)
}

/// The `(timestamp, message)` pairs of a body given its entry starts, as
/// ordered, non-overlapping character spans within it: the timestamp is a
/// start without its trailing ` - `, the message runs to the next start.
pub fn entries_at_spans(c: &Vec<char>, spans: &Vec<(usize, usize)>) -> (r: Vec<(Vec<char>, Vec<char>)>)
    requires
        forall|i: int| 0 <= i < spans@.len() ==> (#[trigger] spans@[i]).0 <= spans@[i].1 <= c@.len(),
        forall|i: int, j: int| 0 <= i < j < spans@.len() ==> spans@[i].1 <= spans@[j].0,
    ensures
        r@.map_values(|e: (Vec<char>, Vec<char>)| (e.0@, e.1@)) == entries_upto(
            c@,
            spans_int(spans@),
            spans@.len(),
        ),
        r@.len() <= c@.len(),
{
    let ghost sv = spans_int(spans@);
    let mut out: Vec<(Vec<char>, Vec<char>)> = Vec::new();
    let mut k: usize = 0;
    while k < spans.len()
        invariant
            k <= spans@.len(),
            sv == spans_int(spans@),
            forall|i: int| 0 <= i < spans@.len() ==> (#[trigger] spans@[i]).0 <= spans@[i].1 <= c@.len(),
            forall|i: int, j: int| 0 <= i < j < spans@.len() ==> spans@[i].1 <= spans@[j].0,
            out@.map_values(|e: (Vec<char>, Vec<char>)| (e.0@, e.1@)) == entries_upto(c@, sv, k as nat),
            k == 0 ==> out@.len() == 0,
            k > 0 ==> out@.len() <= span_end(c@, sv, k - 1),
            k > 0 ==> span_end(c@, sv, k - 1) <= c@.len(),
        decreases spans.len() - k,
    {
        let s = spans[k].0;
        let e = spans[k].1;
        let end = if k + 1 < spans.len() {
            spans[k + 1].0
        } else {
            c.len()
        };
        proof {
            assert(sv[k as int] == (s as int, e as int));
            if k + 1 < spans.len() {
                assert(sv[k + 1] == (spans@[k + 1].0 as int, spans@[k + 1].1 as int));
            }
            assert(end == span_end(c@, sv, k as int));
            if k > 0 {
                assert(sv[k - 1] == (spans@[k - 1].0 as int, spans@[k - 1].1 as int));
                assert(span_end(c@, sv, k - 1) == s);
            }
        }
        let stamp_raw = crate::text::copy_range(c.as_slice(), s, e);
        let stamp_cut = trim_end_class(stamp_raw.as_slice(), CharClass::SpaceOrDash);
        let stamp = trim_ws(stamp_cut.as_slice());
        let msg_raw = crate::text::copy_range(c.as_slice(), e, end);
        let msg = trim_ws(msg_raw.as_slice());
        let ghost before = out@;
        if msg.len() > 0 {
            proof {
                if msg@.len() > 0 && msg_raw@.len() == 0 {
                    assert(msg_raw@ =~= Seq::<char>::empty());
                }
                assert(trim(Seq::<char>::empty()) =~= Seq::<char>::empty()) by {
                    reveal_with_fuel(trim_end_by, 2);
                    reveal_with_fuel(crate::text::trim_start_by, 2);
                }
            }
            out.push((stamp, msg));
        }
        proof {
            assert(out@.map_values(|e: (Vec<char>, Vec<char>)| (e.0@, e.1@)) =~= entries_upto(
                c@,
                sv,
                (k + 1) as nat,
            ));
        }
        k += 1;
    }
    out
}

/// The year walk over a book's timestamps from `base_year` stays within
/// `i32` (the walk adds a year at each backward month jump).
pub open spec fn walk_fits_book(content: Seq<char>, base_year: int) -> bool {
    walk_state(book_stamps(book_entries(content)), base_year, book_entries(content).len()).0 <= i32::MAX
}

/// What reading a book gives: its title and time as given, one entry per
/// book entry oldest first (see [`reads_as`]) with its resolved time, and
/// the owner hint.
pub open spec fn shop_log_read(
    r: ShopLogRecord,
    title: Seq<char>,
    content: Seq<char>,
    log_timestamp: Seq<char>,
    base_year: int,
) -> bool {
    &&& r.title@ == title
    &&& r.log_timestamp@ == log_timestamp
    &&& r.entries@.len() == book_entries(content).len()
    &&& forall|i: int|
        0 <= i < r.entries@.len() ==> reads_as(
            #[trigger] r.entries@[i],
            i,
            book_entries(content)[i].0,
            book_entries(content)[i].1,
        ) && opt_view(r.entries@[i].event_at) == resolved_entry(
            book_stamps(book_entries(content)),
            base_year,
            i,
        )
    &&& ostr(r.owner) == first_owner(book_entries(content))
}

/// The `(timestamp, message)` texts of a book, oldest first.
fn book_oldest_first(content: &str, stamps: &mut Vec<String>, messages: &mut Vec<String>)
    requires
        old(stamps)@.len() == 0,
        old(messages)@.len() == 0,
    ensures
        final(stamps)@.len() == final(messages)@.len() == book_entries(content@).len(),
        final(stamps)@.len() <= content@.len(),
        forall|i: int|
            0 <= i < final(stamps)@.len() ==> (#[trigger] final(stamps)@[i])@ == book_entries(content@)[i].0,
        forall|i: int|
            0 <= i < final(messages)@.len() ==> (#[trigger] final(messages)@[i])@ == book_entries(content@)[i].1,
{
    let raw = chars_of(content);
    let pat = chars_of("\\n");
    let rep = chars_of("\n");
    proof {
        reveal_strlit("\\n");
        reveal_strlit("\n");
        assert(pat@ =~= seq!['\\', 'n']);
        assert(rep@ =~= seq!['\n']);
        lemma_replace_shrinks(raw@, pat@, rep@);
    }
    let body = replace_chars(raw.as_slice(), pat.as_slice(), rep.as_slice());
    let body_text = string_of(body.as_slice());
    let pairs = split_book(&body, body_text.as_str());
    let ghost book = book_entries(content@);
    let ghost fwd = pairs@.map_values(|e: (Vec<char>, Vec<char>)| (e.0@, e.1@));
    proof {
        assert(fwd.reverse() == book);
    }
    let n = pairs.len();
    // Oldest first, as strings.
    let mut j: usize = 0;
    while j < n
        invariant
            j <= n == pairs@.len() == fwd.len() == book.len(),
            fwd == pairs@.map_values(|e: (Vec<char>, Vec<char>)| (e.0@, e.1@)),
            book == fwd.reverse(),
            stamps@.len() == j,
            messages@.len() == j,
            forall|i: int| 0 <= i < j ==> (#[trigger] stamps@[i])@ == book[i].0,
            forall|i: int| 0 <= i < j ==> (#[trigger] messages@[i])@ == book[i].1,
        decreases n - j,
    {
        let p = &pairs[n - 1 - j];
        proof {
            assert(book[j as int] == fwd[n - 1 - j]);
        }
        stamps.push(string_of(p.0.as_slice()));
        messages.push(string_of(p.1.as_slice()));
        j += 1;
    }
    assert(book == book_entries(content@));
}

fn str_refs(v: &Vec<String>) -> (r: Vec<&str>)
    ensures
        r@.len() == v@.len(),
        forall|i: int| 0 <= i < r@.len() ==> (#[trigger] r@[i])@ == v@[i]@,
{
    let n = v.len();
    let mut refs: Vec<&str> = Vec::new();
    let mut j: usize = 0;
    while j < n
        invariant
            j <= n == v@.len(),
            refs@.len() == j,
            forall|i: int| 0 <= i < j ==> (#[trigger] refs@[i])@ == v@[i]@,
        decreases n - j,
    {
        refs.push(v[j].as_str());
        j += 1;
    }
    refs
}

/// Parses a shop log book: the body is unescaped, split into entries at
/// each `"Day Mon DD HH:MM - "`, and the entries are numbered oldest first
/// (the game writes newest first, so indices stay stable as entries are
/// added). Each entry's year is resolved from `base_year` (the year of the
/// oldest entry), and the owner hint is the player of the first owner-only
/// action.
pub fn read_shop_log(title: &str, content: &str, log_timestamp: &str, base_year: i32) -> (r:
    ShopLogRecord)
    requires
        walk_fits_book(content@, base_year as int),
        content@.len() <= i64::MAX,
    ensures
        shop_log_read(r, title@, content@, log_timestamp@, base_year as int),
{
    let mut stamps: Vec<String> = Vec::new();
    let mut messages: Vec<String> = Vec::new();
    book_oldest_first(content, &mut stamps, &mut messages);
    let ghost book = book_entries(content@);
    let n = stamps.len();
    let refs = str_refs(&stamps);
    proof {
        assert(str_views(refs@) =~= book_stamps(book));
        assert(n <= content@.len());
    }
    let resolved = resolve_timestamps_oldest_first(refs.as_slice(), base_year);
    let mut entries: Vec<ShopEntryRecord> = Vec::new();
    let mut j: usize = 0;
    while j < n
        invariant
            j <= n == stamps@.len() == messages@.len() == resolved@.len() == book.len(),
            n <= i64::MAX,
            entries@.len() == j,
            forall|i: int| 0 <= i < n ==> (#[trigger] stamps@[i])@ == book[i].0 && messages@[i]@ == book[i].1,
            forall|k: int|
                0 <= k < n ==> opt_view(#[trigger] resolved@[k]) == resolved_entry(
                    book_stamps(book),
                    base_year as int,
                    k,
                ),
            forall|i: int|
                0 <= i < j ==> reads_as(#[trigger] entries@[i], i, book[i].0, book[i].1) && opt_view(
                    entries@[i].event_at,
                ) == resolved_entry(book_stamps(book), base_year as int, i),
        decreases n - j,
    {
        let mut e = read_entry(j as i64, stamps[j].as_str(), messages[j].as_str());
        e.event_at = match &resolved[j] {
            Some(t) => Some(t.clone()),
            None => None,
        };
        entries.push(e);
        j += 1;
    }
    // The owner hint.
    let mut owner: Option<String> = None;
    let mut j: usize = 0;
    proof {
        assert(book.skip(0) =~= book);
        assert(book.skip(n as int) =~= Seq::<(Seq<char>, Seq<char>)>::empty());
    }
    while j < n
        invariant_except_break
            owner is None,
            first_owner(book) == first_owner(book.skip(j as int)),
        invariant
            j <= n == entries@.len() == book.len(),
            forall|i: int| 0 <= i < n ==> reads_as(#[trigger] entries@[i], i, book[i].0, book[i].1),
            book.skip(n as int) =~= Seq::<(Seq<char>, Seq<char>)>::empty(),
        ensures
            ostr(owner) == first_owner(book),
        decreases n - j,
    {
        let e = &entries[j];
        proof {
            assert(book.skip(j as int)[0] == book[j as int]);
            assert(book.skip(j as int).drop_first() =~= book.skip(j + 1));
            reveal_strlit("bought");
            reveal_strlit("unknown");
            reveal_strlit("added");
            reveal_strlit("removed");
            reveal_strlit("configured");
            reveal_strlit("visible");
            reveal_strlit("collected");
        }
        let is_owner = {
            let a = chars_of(e.action.as_str());
            !(crate::text::eq_str(a.as_slice(), "bought") || crate::text::eq_str(a.as_slice(), "unknown"))
        };
        proof {
            let a = classify(book[j as int].1).0;
            assert(e.action@ == action_text(a));
            assert(is_owner == owner_action(a)) by {
                assert("bought"@.len() == 6);
                assert("unknown"@.len() == 7);
                assert("added"@.len() == 5);
                assert("removed"@.len() == 7);
                assert("configured"@.len() == 10);
                assert("visible"@.len() == 7);
                assert("collected"@.len() == 9);
                assert("unknown"@[0] == 'u' && "removed"@[0] == 'r' && "visible"@[0] == 'v');
            }
            assert(first_owner(book.skip(j as int)) == if owner_action(a) {
                Some(player_of(a, classify(book[j as int].1).1))
            } else {
                first_owner(book.skip(j + 1))
            });
        }
        if is_owner {
            owner = Some(e.player.clone());
            break;
        }
        j += 1;
    }
    ShopLogRecord {
        log_timestamp: log_timestamp.to_string(),
        title: title.to_string(),
        entries,
        owner,
    }
}

/// [`read_shop_log`] where the year walk fits in `i32`, and `None` where
/// it would overflow. (A `str` holds at most `isize::MAX` bytes, so its
/// length in characters always fits in `i64`.)
pub fn read_shop_log_checked(title: &str, content: &str, log_timestamp: &str, base_year: i32) -> (r:
    Option<ShopLogRecord>)
    requires
        content@.len() <= i64::MAX,
    ensures
        r is Some <==> walk_fits_book(content@, base_year as int),
        r matches Some(rec) ==> shop_log_read(rec, title@, content@, log_timestamp@, base_year as int),
{
    let mut stamps: Vec<String> = Vec::new();
    let mut messages: Vec<String> = Vec::new();
    book_oldest_first(content, &mut stamps, &mut messages);
    let refs = str_refs(&stamps);
    proof {
        assert(str_views(refs@) =~= book_stamps(book_entries(content@)));
    }
    if walk_fits(refs.as_slice(), base_year) {
        Some(read_shop_log(title, content, log_timestamp, base_year))
    } else {
        None
    }
}

// ============================================================
// Laws
// ============================================================

/// The entries of a book as the game lists them, newest first.
pub open spec fn book_order(content: Seq<char>) -> Seq<(Seq<char>, Seq<char>)> {
    let c = unescaped(content);
    let spans = regex_match_spans(entry_pattern(), c);
    entries_upto(c, spans, spans.len())
}

proof fn lemma_walk_prefix(a: Seq<Seq<char>>, b: Seq<Seq<char>>, base: int, k: nat)
    requires
        k <= a.len(),
        k <= b.len(),
        forall|i: int| 0 <= i < k ==> a[i] == b[i],
    ensures
        walk_state(a, base, k) == walk_state(b, base, k),
    decreases k,
{
    if k > 0 {
        lemma_walk_prefix(a, b, base, (k - 1) as nat);
    }
}

/// Re-opening a book to which newer entries were added at the top keeps
/// every older entry at its index, with the same timestamp, message and
/// resolved time.
pub proof fn law_entry_indices_stable(old_book: Seq<char>, new_book: Seq<char>, newer: Seq<(Seq<char>, Seq<char>)>, base_year: int)
    requires
        book_order(new_book) == newer + book_order(old_book),
    ensures
        book_entries(old_book).len() <= book_entries(new_book).len(),
        forall|i: int|
            0 <= i < book_entries(old_book).len() ==> #[trigger] book_entries(new_book)[i]
                == book_entries(old_book)[i] && resolved_entry(
                book_stamps(book_entries(new_book)),
                base_year,
                i,
            ) == resolved_entry(book_stamps(book_entries(old_book)), base_year, i),
{
    let o = book_order(old_book);
    let n = book_order(new_book);
    let ob = book_entries(old_book);
    let nb = book_entries(new_book);
    assert(ob == o.reverse());
    assert(nb == n.reverse());
    assert forall|i: int| 0 <= i < ob.len() implies #[trigger] nb[i] == ob[i] by {
        assert(nb[i] == n[n.len() - 1 - i]);
        assert(n[n.len() - 1 - i] == o[o.len() - 1 - i]);
    }
    let os = book_stamps(ob);
    let ns = book_stamps(nb);
    assert forall|i: int| 0 <= i < ob.len() implies resolved_entry(ns, base_year, i) == resolved_entry(os, base_year, i) by {
        assert forall|j: int| 0 <= j < i + 1 implies os[j] == ns[j] by {
            assert(nb[j] == ob[j]);
        }
        lemma_walk_prefix(os, ns, base_year, (i + 1) as nat);
        assert(os[i] == ns[i]);
    }
}

} // verus!
