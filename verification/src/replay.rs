//! Dual-log replay: Player.log lines and Chat.log messages interleaved by
//! their UTC second, as live tailing would have seen them.

use vstd::prelude::*;

verus! {

/// A timestamped event of either log, ready for interleaving. `M` is the
/// parsed chat message.
#[derive(Debug)]
pub enum TimedEvent<M> {
    /// A Player.log line.
    PlayerLine { utc_second: i64, line: String },
    /// A Chat.log message.
    ChatMessage { utc_second: i64, msg: M },
    /// A Chat.log login line, carrying the timezone offset.
    ChatLogin {
        utc_second: i64,
        server_name: String,
        character_name: String,
        timezone_offset_seconds: Option<i32>,
    },
}

/// Within one second, logins come first (they carry the timezone), then
/// Player.log lines, then chat messages.
pub open spec fn event_key<M>(e: TimedEvent<M>) -> (i64, u8) {
    match e {
        TimedEvent::ChatLogin { utc_second, .. } => (utc_second, 0),
        TimedEvent::PlayerLine { utc_second, .. } => (utc_second, 1),
        TimedEvent::ChatMessage { utc_second, .. } => (utc_second, 2),
    }
}

pub open spec fn key_le(a: (i64, u8), b: (i64, u8)) -> bool {
    a.0 < b.0 || (a.0 == b.0 && a.1 <= b.1)
}

impl<M> TimedEvent<M> {
    pub fn utc_second(&self) -> (r: i64)
        ensures
            r == event_key(*self).0,
    {
        match self {
            TimedEvent::PlayerLine { utc_second, .. } => *utc_second,
            TimedEvent::ChatMessage { utc_second, .. } => *utc_second,
            TimedEvent::ChatLogin { utc_second, .. } => *utc_second,
        }
    }

    /// `(utc_second, source order)`.
    pub fn sort_key(&self) -> (r: (i64, u8))
        ensures
            r == event_key(*self),
    {
        match self {
            TimedEvent::ChatLogin { utc_second, .. } => (*utc_second, 0),
            TimedEvent::PlayerLine { utc_second, .. } => (*utc_second, 1),
            TimedEvent::ChatMessage { utc_second, .. } => (*utc_second, 2),
        }
    }
}

/// `after` is `before` reordered by a stable sort on the event key: a
/// permutation `p` (`after[i] == before[p[i]]`), ordered by key, keeping
/// the order of events with equal keys.
pub open spec fn stably_sorted<M>(before: Seq<TimedEvent<M>>, after: Seq<TimedEvent<M>>) -> bool {
    exists|p: Seq<int>|
        {
            &&& #[trigger] p.len() == before.len()
            &&& after.len() == before.len()
            &&& forall|i: int| 0 <= i < p.len() ==> 0 <= #[trigger] p[i] < before.len()
            &&& forall|i: int, j: int| 0 <= i < j < p.len() ==> p[i] != p[j]
            &&& forall|i: int| 0 <= i < after.len() ==> after[i] == before[#[trigger] p[i]]
            &&& forall|i: int, j: int|
                0 <= i < j < after.len() ==> key_le(event_key(after[i]), event_key(after[j]))
            &&& forall|i: int, j: int|
                0 <= i < j < after.len() && event_key(after[i]) == event_key(after[j]) ==> p[i]
                    < p[j]
        }
}

/// std: `slice::sort_by_key` with the event key, a stable sort. The
/// contract states what its documentation promises: the result is a
/// permutation of the input, ordered by key, with equal keys in their
/// original order.
#[verifier::external_body]
fn sort_events<M>(events: &mut Vec<TimedEvent<M>>)
    ensures
        stably_sorted(old(events)@, final(events)@),
{
    events.sort_by_key(|e| e.sort_key());
}

/// The first timezone offset carried by a login line.
pub open spec fn first_offset<M>(events: Seq<TimedEvent<M>>) -> Option<i32>
    decreases events.len(),
{
    if events.len() == 0 {
        None
    } else {
        match events[0] {
            TimedEvent::ChatLogin { timezone_offset_seconds: Some(o), .. } => Some(o),
            _ => first_offset(events.drop_first()),
        }
    }
}

/// The timezone offset of the first login line that carries one, else 0.
pub fn first_timezone_offset<M>(events: &Vec<TimedEvent<M>>) -> (r: i32)
    ensures
        r == match first_offset(events@) {
            Some(o) => o,
            None => 0,
        },
{
    let mut i: usize = 0;
    assert(events@.skip(0) =~= events@);
    while i < events.len()
        invariant
            i <= events@.len(),
            first_offset(events@) == first_offset(events@.skip(i as int)),
        decreases events.len() - i,
    {
        assert(events@.skip(i as int)[0] == events@[i as int]);
        assert(events@.skip(i as int).drop_first() =~= events@.skip(i + 1));
        if let TimedEvent::ChatLogin { timezone_offset_seconds: Some(o), .. } = &events[i] {
            return *o;
        }
        i += 1;
    }
    0
}

/// Progress reported to the front end during a replay.
#[derive(Debug, Clone)]
pub struct ReplayProgress {
    pub phase: String,
    pub current: usize,
    pub total: usize,
    pub detail: String,
}

/// Counts of what a replay processed and emitted.
#[derive(Debug, Clone, Copy, PartialEq, Eq, Structural)]
pub struct ReplayResult {
    pub player_lines_processed: usize,
    pub chat_messages_processed: usize,
    pub player_events_emitted: usize,
    pub chat_status_events_emitted: usize,
}

impl ReplayResult {
    pub fn new() -> (r: Self)
        ensures
            r == (ReplayResult {
                player_lines_processed: 0,
                chat_messages_processed: 0,
                player_events_emitted: 0,
                chat_status_events_emitted: 0,
            }),
    {
        ReplayResult {
            player_lines_processed: 0,
            chat_messages_processed: 0,
            player_events_emitted: 0,
            chat_status_events_emitted: 0,
        }
    }
}

/// Emit progress about every hundredth event, and at least every fiftieth.
pub fn progress_interval(total_events: usize) -> (r: usize)
    ensures
        r == if total_events / 100 > 50 {
            total_events / 100
        } else {
            50
        },
        r > 0,
{
    let p = total_events / 100;
    if p > 50 {
        p
    } else {
        50
    }
}

/// What a Player.log line's `[HH:MM:SS]` stamp reads as.
#[derive(Debug, Clone, Copy, PartialEq, Eq, Structural)]
pub enum LineStamp {
    /// A valid stamp, as a UTC second.
    Second(i64),
    /// A bracketed stamp that is not a valid time.
    Invalid,
    /// No stamp.
    Missing,
}

/// Player.log lines with their UTC second: a line with a valid stamp keeps
/// its own second, a line with an invalid one is dropped, an unstamped one
/// takes the second of the event before it (and is dropped when there is
/// none); empty lines are skipped.
pub open spec fn stamped_lines(lines: Seq<(LineStamp, Seq<char>)>) -> Seq<(i64, Seq<char>)>
    decreases lines.len(),
{
    if lines.len() == 0 {
        Seq::empty()
    } else {
        let prev = stamped_lines(lines.drop_last());
        let (stamp, text) = lines.last();
        if text.len() == 0 {
            prev
        } else {
            match stamp {
                LineStamp::Second(t) => prev.push((t, text)),
                LineStamp::Invalid => prev,
                LineStamp::Missing => if prev.len() > 0 {
                    prev.push((prev.last().0, text))
                } else {
                    prev
                },
            }
        }
    }
}

pub open spec fn lines_view(v: Seq<(LineStamp, String)>) -> Seq<(LineStamp, Seq<char>)> {
    v.map_values(|l: (LineStamp, String)| (l.0, l.1@))
}

pub open spec fn player_lines_view<M>(v: Seq<TimedEvent<M>>) -> Seq<(i64, Seq<char>)> {
    v.map_values(
        |e: TimedEvent<M>|
            match e {
                TimedEvent::PlayerLine { utc_second, line } => (utc_second, line@),
                _ => (0, Seq::empty()),
            },
    )
}

/// Player.log lines as timed events, from each (already end-trimmed) line
/// and what its `[HH:MM:SS]` stamp reads as.
pub fn stamp_player_lines<M>(lines: Vec<(LineStamp, String)>) -> (r: Vec<TimedEvent<M>>)
    ensures
        forall|i: int| 0 <= i < r@.len() ==> (#[trigger] r@[i]) is PlayerLine,
        player_lines_view(r@) == stamped_lines(lines_view(lines@)),
{
    let ghost lv = lines_view(lines@);
    let mut out: Vec<TimedEvent<M>> = Vec::new();
    let mut last: Option<i64> = None;
    let mut i: usize = 0;
    while i < lines.len()
        invariant
            i <= lines@.len(),
            lv == lines_view(lines@),
            forall|k: int| 0 <= k < out@.len() ==> (#[trigger] out@[k]) is PlayerLine,
            player_lines_view(out@) == stamped_lines(lv.take(i as int)),
            match last {
                Some(t) => out@.len() > 0 && player_lines_view(out@).last().0 == t,
                None => out@.len() == 0,
            },
        decreases lines.len() - i,
    {
        let (sec, text) = (&lines[i].0, &lines[i].1);
        let ghost before = out@;
        proof {
            assert(lv.take(i + 1).drop_last() =~= lv.take(i as int));
            assert(lv.take(i + 1).last() == (lines@[i as int].0, lines@[i as int].1@));
        }
        if crate::text::chars_of(text.as_str()).len() > 0 {
            match sec {
                LineStamp::Second(t) => {
                    out.push(TimedEvent::PlayerLine { utc_second: *t, line: text.clone() });
                    last = Some(*t);
                },
                LineStamp::Invalid => {},
                LineStamp::Missing => {
                    if let Some(t) = last {
                        out.push(TimedEvent::PlayerLine { utc_second: t, line: text.clone() });
                    }
                },
            }
        }
        proof {
            if out@.len() > before.len() {
                assert(player_lines_view(out@) =~= player_lines_view(before).push(
                    player_lines_view(out@).last(),
                ));
            } else {
                assert(out@ == before);
            }
        }
        i += 1;
    }
    proof {
        assert(lv.take(lines@.len() as int) =~= lv);
    }
    out
}

/// A login line at second 0, so that it sorts before every other event;
/// other events unchanged.
pub open spec fn login_first<M>(e: TimedEvent<M>) -> TimedEvent<M> {
    match e {
        TimedEvent::ChatLogin { server_name, character_name, timezone_offset_seconds, .. } =>
            TimedEvent::ChatLogin {
            utc_second: 0,
            server_name,
            character_name,
            timezone_offset_seconds,
        },
        other => other,
    }
}

fn login_first_exec<M>(e: TimedEvent<M>) -> (r: TimedEvent<M>)
    ensures
        r == login_first(e),
{
    match e {
        TimedEvent::ChatLogin { server_name, character_name, timezone_offset_seconds, .. } =>
            TimedEvent::ChatLogin {
            utc_second: 0,
            server_name,
            character_name,
            timezone_offset_seconds,
        },
        other => other,
    }
}

/// Chat.log events ready to merge: each login line set to second 0, the
/// other events as they are, in the same order.
pub fn logins_first<M>(events: Vec<TimedEvent<M>>) -> (r: Vec<TimedEvent<M>>)
    ensures
        r@ == events@.map_values(|e: TimedEvent<M>| login_first(e)),
{
    let ghost orig = events@;
    let mut stack = events;
    let mut rev: Vec<TimedEvent<M>> = Vec::new();
    while stack.len() > 0
        invariant
            stack@.len() + rev@.len() == orig.len(),
            stack@ == orig.take(stack@.len() as int),
            forall|k: int|
                0 <= k < rev@.len() ==> #[trigger] rev@[k] == login_first(orig[orig.len() - 1 - k]),
        decreases stack.len(),
    {
        let ghost n = stack@.len();
        let e = stack.pop().unwrap();
        assert(e == orig[n - 1]);
        rev.push(login_first_exec(e));
        assert(stack@ =~= orig.take(n - 1));
    }
    let mut out: Vec<TimedEvent<M>> = Vec::new();
    while rev.len() > 0
        invariant
            rev@.len() + out@.len() == orig.len(),
            forall|k: int|
                0 <= k < rev@.len() ==> #[trigger] rev@[k] == login_first(orig[orig.len() - 1 - k]),
            forall|k: int| 0 <= k < out@.len() ==> #[trigger] out@[k] == login_first(orig[k]),
        decreases rev.len(),
    {
        let ghost n = rev@.len();
        let e = rev.pop().unwrap();
        assert(e == login_first(orig[orig.len() - n]));
        out.push(e);
    }
    assert(out@ =~= orig.map_values(|e: TimedEvent<M>| login_first(e)));
    out
}

/// Both logs' events in replay order: Player.log events, then Chat.log
/// events, stably sorted by second, login lines first within a second,
/// then Player.log lines, then chat messages.
pub fn merge_events<M>(player: Vec<TimedEvent<M>>, chat: Vec<TimedEvent<M>>) -> (r: Vec<TimedEvent<M>>)
    ensures
        stably_sorted(player@ + chat@, r@),
{
    let mut all = player;
    let mut rest = chat;
    all.append(&mut rest);
    sort_events(&mut all);
    all
}

} // verus!
