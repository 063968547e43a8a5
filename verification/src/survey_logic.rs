//! The survey aggregator's decisions that need no database: reading the
//! second of an event, recognising mining loops and survey gains, stamping
//! a survey use onto a gain's provenance, and the queue of consumed survey
//! maps waiting for their loot.

use vstd::prelude::*;
use std::collections::VecDeque;
use crate::text::{
    CharClass, chars_of, eq_str, split, split_char, trim, trim_end_by, trim_end_class, trim_ws,
};
use crate::log_events::num_u32;
use crate::player_events::{ActivitySource, ItemProvenance, PlayerEvent, ProvV, SourceV};
use crate::report_stats::{lowercase, to_lowercase};
use crate::survey_types::{SessionStartTrigger, SurveySession, SurveyUseKind};
use crate::text::{contains, contains_str};

verus! {

/// How long after a survey map is consumed a mining gain may still belong
/// to it (the walk to the node).
pub const SURVEY_TO_MINING_GRACE_SECS: u32 = 60;

/// How long after its first gain a motherlode keeps collecting gains.
pub const MOTHERLODE_SAME_SWING_SECS: u32 = 1;

/// What the aggregator reports to the front end.
#[derive(Debug, Clone)]
pub enum SurveyAggregatorEvent {
    SessionStarted { session_id: i64, trigger: SessionStartTrigger },
    /// `reason` is `manual`, `auto` or `idle`.
    SessionEnded { session_id: i64, reason: String },
    UseRecorded {
        use_id: i64,
        session_id: Option<i64>,
        map_internal_name: String,
        kind: SurveyUseKind,
    },
    UseCompleted { use_id: i64 },
    MultihitNodeOpened { use_id: i64, node_entity_id: u32 },
    MultihitNodeClosed { use_id: i64, node_entity_id: u32 },
}

// ============================================================
// Seconds of day
// ============================================================

/// `parts.next()?.parse::<u32>()` for the `k`th piece (no trimming).
pub open spec fn piece_u32(parts: Seq<Seq<char>>, k: int) -> Option<u32> {
    if 0 <= k < parts.len() {
        num_u32(parts[k])
    } else {
        None
    }
}

/// The seconds of day of `H:M:S` (three `u32` fields, any further pieces
/// ignored), as a mathematical integer.
pub open spec fn secs_of_day(hms: Seq<char>) -> Option<int> {
    let p = split(hms, ':');
    match (piece_u32(p, 0), piece_u32(p, 1), piece_u32(p, 2)) {
        (Some(h), Some(m), Some(s)) => Some(h * 3600 + m * 60 + s),
        _ => None,
    }
}

/// The seconds of day fit in `u32`.
pub open spec fn secs_fit(hms: Seq<char>) -> bool {
    secs_of_day(hms) matches Some(v) ==> v <= u32::MAX
}

fn piece_u32_exec(parts: &Vec<Vec<char>>, k: usize) -> (r: Option<u32>)
    ensures
        r == piece_u32(parts@.map_values(|v: Vec<char>| v@), k as int),
{
    if k < parts.len() {
        assert(parts@.map_values(|v: Vec<char>| v@)[k as int] == parts@[k as int]@);
        match crate::text::parse_u32(parts[k].as_slice()) {
            Some(v) => Some(v),
            None => None,
        }
    } else {
        None
    }
}

/// `HH:MM:SS` to seconds of day; `None` when a field is missing or not a
/// `u32`.
pub fn parse_secs_of_day(hms: &str) -> (r: Option<u32>)
    requires
        secs_fit(hms@),
    ensures
        match r {
            Some(v) => secs_of_day(hms@) == Some(v as int),
            None => secs_of_day(hms@) is None,
        },
{
    let c = chars_of(hms);
    let parts = split_char(c.as_slice(), ':');
    let h = piece_u32_exec(&parts, 0)?;
    let m = piece_u32_exec(&parts, 1)?;
    let s = piece_u32_exec(&parts, 2)?;
    Some(h * 3600 + m * 60 + s)
}

/// The timestamp of the events the aggregator reads time from.
pub open spec fn event_ts(e: PlayerEvent) -> Option<Seq<char>> {
    match e {
        PlayerEvent::ItemAdded { timestamp, .. } => Some(timestamp@),
        PlayerEvent::ItemStackChanged { timestamp, .. } => Some(timestamp@),
        PlayerEvent::ItemDeleted { timestamp, .. } => Some(timestamp@),
        PlayerEvent::DelayLoopStarted { timestamp, .. } => Some(timestamp@),
        PlayerEvent::StorageWithdrawal { timestamp, .. } => Some(timestamp@),
        PlayerEvent::InteractionStarted { timestamp, .. } => Some(timestamp@),
        _ => None,
    }
}

pub fn event_hms_timestamp(event: &PlayerEvent) -> (r: Option<&str>)
    ensures
        match r {
            Some(t) => event_ts(*event) == Some(t@),
            None => event_ts(*event) is None,
        },
{
    match event {
        PlayerEvent::ItemAdded { timestamp, .. } => Some(timestamp.as_str()),
        PlayerEvent::ItemStackChanged { timestamp, .. } => Some(timestamp.as_str()),
        PlayerEvent::ItemDeleted { timestamp, .. } => Some(timestamp.as_str()),
        PlayerEvent::DelayLoopStarted { timestamp, .. } => Some(timestamp.as_str()),
        PlayerEvent::StorageWithdrawal { timestamp, .. } => Some(timestamp.as_str()),
        PlayerEvent::InteractionStarted { timestamp, .. } => Some(timestamp.as_str()),
        _ => None,
    }
}

/// The seconds of day of an event that carries a usable timestamp.
pub open spec fn event_secs(e: PlayerEvent) -> Option<int> {
    match event_ts(e) {
        Some(t) => secs_of_day(t),
        None => None,
    }
}

pub fn event_secs_of_day(event: &PlayerEvent) -> (r: Option<u32>)
    requires
        event_ts(*event) matches Some(t) ==> secs_fit(t),
    ensures
        match r {
            Some(v) => event_secs(*event) == Some(v as int),
            None => event_secs(*event) is None,
        },
{
    let ts = event_hms_timestamp(event)?;
    parse_secs_of_day(ts)
}

// ============================================================
// Mining loops and gains
// ============================================================

/// A `ChopLumber` delay loop labelled `Mining` (any trailing dots or
/// blanks, any case).
pub open spec fn mining_loop(action_type: Seq<char>, label: Seq<char>) -> bool {
    action_type == "ChopLumber"@ && lowercase(trim_end_by(trim(label), CharClass::DotOrWhitespace))
        == "mining"@
}

pub fn is_mining_loop(action_type: &str, label: &str) -> (r: bool)
    ensures
        r == mining_loop(action_type@, label@),
{
    let at = chars_of(action_type);
    if !eq_str(at.as_slice(), "ChopLumber") {
        return false;
    }
    let l = chars_of(label);
    let t = trim_ws(l.as_slice());
    let core = trim_end_class(t.as_slice(), CharClass::DotOrWhitespace);
    let lower = to_lowercase(core.as_slice());
    eq_str(lower.as_slice(), "mining")
}

/// For an attributed provenance: the mining node when the source is
/// mining, and whether the source is a survey map use.
pub open spec fn provenance_kind(p: ProvV) -> (Option<u32>, bool) {
    match p {
        ProvV::Attributed { source: SourceV::Mining { node, .. }, .. } => (node, false),
        ProvV::Attributed { source: SourceV::SurveyMapUse { .. }, .. } => (None, true),
        _ => (None, false),
    }
}

pub fn read_provenance_kind(provenance: &ItemProvenance) -> (r: (Option<u32>, bool))
    ensures
        r == provenance_kind(provenance.pv()),
{
    match provenance {
        ItemProvenance::Attributed { source: ActivitySource::Mining { node_entity_id, .. }, .. } =>
            (*node_entity_id, false),
        ItemProvenance::Attributed { source: ActivitySource::SurveyMapUse { .. }, .. } => (
            None,
            true,
        ),
        _ => (None, false),
    }
}

/// A gain event: its quantity (the initial quantity of an added item, the
/// positive delta of a stack change), its mining node and whether it is
/// survey-map loot.
pub open spec fn gain_of(e: PlayerEvent) -> Option<(u32, Option<u32>, bool)> {
    match e {
        PlayerEvent::ItemAdded { provenance, initial_quantity, .. } => {
            let k = provenance_kind(provenance.pv());
            Some((initial_quantity, k.0, k.1))
        },
        PlayerEvent::ItemStackChanged { provenance, delta, .. } => if delta > 0 {
            let k = provenance_kind(provenance.pv());
            Some((delta as u32, k.0, k.1))
        } else {
            None
        },
        _ => None,
    }
}

pub fn gain_info(event: &PlayerEvent) -> (r: Option<(u32, Option<u32>, bool)>)
    ensures
        r == gain_of(*event),
{
    match event {
        PlayerEvent::ItemAdded { provenance, initial_quantity, .. } => {
            let k = read_provenance_kind(provenance);
            Some((*initial_quantity, k.0, k.1))
        },
        PlayerEvent::ItemStackChanged { provenance, delta, .. } => {
            if *delta > 0 {
                let k = read_provenance_kind(provenance);
                Some((*delta as u32, k.0, k.1))
            } else {
                None
            }
        },
        _ => None,
    }
}

// ============================================================
// Stamping a survey use onto a gain
// ============================================================

/// An attributed provenance with its survey use set; others unchanged.
pub open spec fn with_survey_use(p: ProvV, use_id: i64) -> ProvV {
    match p {
        ProvV::Attributed { source, confidence, .. } => ProvV::Attributed {
            source,
            confidence,
            survey_use_id: Some(use_id),
        },
        _ => p,
    }
}

pub fn inject_survey_use_id_into(provenance: &mut ItemProvenance, use_id: i64)
    ensures
        final(provenance).pv() == with_survey_use(old(provenance).pv(), use_id),
{
    if let ItemProvenance::Attributed { survey_use_id, .. } = provenance {
        *survey_use_id = Some(use_id);
    }
}

/// A gain event whose provenance carries the survey use; any other event
/// unchanged.
pub open spec fn event_with_survey_use(e: PlayerEvent, use_id: i64) -> crate::player_events::EventV {
    match e.ev() {
        crate::player_events::EventV::ItemAdded {
            ts,
            item_name,
            instance_id,
            slot_index,
            is_new,
            initial_quantity,
            provenance,
        } => crate::player_events::EventV::ItemAdded {
            ts,
            item_name,
            instance_id,
            slot_index,
            is_new,
            initial_quantity,
            provenance: with_survey_use(provenance, use_id),
        },
        crate::player_events::EventV::ItemStackChanged {
            ts,
            instance_id,
            item_name,
            item_type_id,
            old_stack_size,
            new_stack_size,
            delta,
            from_server,
            provenance,
        } => crate::player_events::EventV::ItemStackChanged {
            ts,
            instance_id,
            item_name,
            item_type_id,
            old_stack_size,
            new_stack_size,
            delta,
            from_server,
            provenance: with_survey_use(provenance, use_id),
        },
        v => v,
    }
}

pub fn apply_survey_use_id(event: &mut PlayerEvent, use_id: i64)
    ensures
        final(event).ev() == event_with_survey_use(*old(event), use_id),
{
    match event {
        PlayerEvent::ItemAdded { provenance, .. } => {
            inject_survey_use_id_into(provenance, use_id);
        },
        PlayerEvent::ItemStackChanged { provenance, .. } => {
            inject_survey_use_id_into(provenance, use_id);
        },
        _ => {},
    }
}

// ============================================================
// Consumed survey maps waiting for loot
// ============================================================

/// A consumed survey map waiting for its first loot.
pub struct PendingUse {
    pub survey_use_id: i64,
    pub kind: SurveyUseKind,
    pub used_at_secs: u32,
}

pub type PendingUseV = (i64, SurveyUseKind, u32);

impl PendingUse {
    pub open spec fn uv(self) -> PendingUseV {
        (self.survey_use_id, self.kind, self.used_at_secs)
    }
}

pub open spec fn pending_uses_view(v: Seq<PendingUse>) -> Seq<PendingUseV> {
    v.map_values(|p: PendingUse| p.uv())
}

pub open spec fn age(now: u32, then: u32) -> int {
    if now >= then {
        now - then
    } else {
        0
    }
}

/// Drop the oldest entries while they are past the grace window; the
/// first entry still within it stops the sweep.
pub open spec fn expire_front(q: Seq<PendingUseV>, now: u32) -> Seq<PendingUseV>
    decreases q.len(),
{
    if q.len() > 0 && age(now, q[0].2) > SURVEY_TO_MINING_GRACE_SECS {
        expire_front(q.drop_first(), now)
    } else {
        q
    }
}

fn front_expired(queue: &VecDeque<PendingUse>, now_secs: u32) -> (r: bool)
    ensures
        r == (queue@.len() > 0 && age(now_secs, queue@[0].used_at_secs) > SURVEY_TO_MINING_GRACE_SECS),
{
    if queue.len() == 0 {
        return false;
    }
    let front = &queue[0];
    let a = if now_secs >= front.used_at_secs {
        now_secs - front.used_at_secs
    } else {
        0
    };
    a > SURVEY_TO_MINING_GRACE_SECS
}

pub fn expire_pending_uses(queue: &mut VecDeque<PendingUse>, now_secs: u32)
    ensures
        pending_uses_view(final(queue)@) == expire_front(pending_uses_view(old(queue)@), now_secs),
{
    while front_expired(queue, now_secs)
        invariant
            expire_front(pending_uses_view(old(queue)@), now_secs) == expire_front(
                pending_uses_view(queue@),
                now_secs,
            ),
        decreases queue.len(),
    {
        let ghost before = pending_uses_view(queue@);
        assert(before[0] == queue@[0].uv());
        queue.pop_front();
        assert(pending_uses_view(queue@) =~= before.drop_first());
    }
    proof {
        let v = pending_uses_view(queue@);
        if v.len() > 0 {
            assert(v[0] == queue@[0].uv());
        }
    }
}

/// The first queued use still within the grace window at `now`.
pub open spec fn first_in_grace(q: Seq<PendingUseV>, now: u32) -> Option<int>
    decreases q.len(),
{
    if q.len() == 0 {
        None
    } else if age(now, q[0].2) <= SURVEY_TO_MINING_GRACE_SECS {
        Some(0)
    } else {
        match first_in_grace(q.drop_first(), now) {
            Some(i) => Some(i + 1),
            None => None,
        }
    }
}

proof fn lemma_first_in_grace(q: Seq<PendingUseV>, now: u32)
    ensures
        match first_in_grace(q, now) {
            Some(i) => 0 <= i < q.len() && age(now, q[i].2) <= SURVEY_TO_MINING_GRACE_SECS
                && forall|j: int| 0 <= j < i ==> age(now, q[j].2) > SURVEY_TO_MINING_GRACE_SECS,
            None => forall|j: int|
                0 <= j < q.len() ==> age(now, q[j].2) > SURVEY_TO_MINING_GRACE_SECS,
        },
    decreases q.len(),
{
    if q.len() > 0 && age(now, q[0].2) > SURVEY_TO_MINING_GRACE_SECS {
        lemma_first_in_grace(q.drop_first(), now);
        assert forall|j: int| 0 < j < q.len() implies q[j] == q.drop_first()[j - 1] by {}
    }
}

/// Take the first queued use within the grace window: a new mining node's
/// loot belongs to it.
pub fn take_pending_for_mining(queue: &mut VecDeque<PendingUse>, now_secs: u32) -> (r: Option<PendingUse>)
    ensures
        match first_in_grace(pending_uses_view(old(queue)@), now_secs) {
            Some(i) => r matches Some(p) && p.uv() == pending_uses_view(old(queue)@)[i]
                && pending_uses_view(final(queue)@) == pending_uses_view(old(queue)@).remove(i),
            None => r is None && final(queue)@ == old(queue)@,
        },
{
    proof {
        lemma_first_in_grace(pending_uses_view(queue@), now_secs);
    }
    let mut i: usize = 0;
    while i < queue.len()
        invariant
            i <= queue@.len(),
            forall|j: int|
                0 <= j < i ==> age(now_secs, #[trigger] queue@[j].used_at_secs)
                    > SURVEY_TO_MINING_GRACE_SECS,
        ensures
            i <= queue@.len(),
            forall|j: int|
                0 <= j < i ==> age(now_secs, #[trigger] queue@[j].used_at_secs)
                    > SURVEY_TO_MINING_GRACE_SECS,
            i < queue@.len() ==> age(now_secs, queue@[i as int].used_at_secs)
                <= SURVEY_TO_MINING_GRACE_SECS,
        decreases queue.len() - i,
    {
        let a = if now_secs >= queue[i].used_at_secs {
            now_secs - queue[i].used_at_secs
        } else {
            0
        };
        if a <= SURVEY_TO_MINING_GRACE_SECS {
            break;
        }
        i += 1;
    }
    proof {
        let v = pending_uses_view(queue@);
        lemma_first_in_grace(v, now_secs);
        if let Some(k) = first_in_grace(v, now_secs) {
            assert(v[k] == queue@[k].uv());
            if i < queue@.len() {
                assert(v[i as int] == queue@[i as int].uv());
            }
        }
    }
    if i < queue.len() {
        proof {
            let v = pending_uses_view(queue@);
            assert(v[i as int] == queue@[i as int].uv());
        }
        let ghost before = pending_uses_view(queue@);
        let p = queue.remove(i);
        assert(pending_uses_view(queue@) =~= before.remove(i as int));
        p
    } else {
        None
    }
}

/// The most recent queued basic survey use.
pub open spec fn last_basic(q: Seq<PendingUseV>) -> Option<int>
    decreases q.len(),
{
    if q.len() == 0 {
        None
    } else if q.last().1 == SurveyUseKind::Basic {
        Some(q.len() - 1)
    } else {
        last_basic(q.drop_last())
    }
}

proof fn lemma_last_basic(q: Seq<PendingUseV>)
    ensures
        match last_basic(q) {
            Some(i) => 0 <= i < q.len() && q[i].1 == SurveyUseKind::Basic && forall|j: int|
                i < j < q.len() ==> q[j].1 != SurveyUseKind::Basic,
            None => forall|j: int| 0 <= j < q.len() ==> q[j].1 != SurveyUseKind::Basic,
        },
    decreases q.len(),
{
    if q.len() > 0 && q.last().1 != SurveyUseKind::Basic {
        lemma_last_basic(q.drop_last());
        assert forall|j: int| 0 <= j < q.len() - 1 implies q.drop_last()[j] == q[j] by {}
    }
}

pub fn last_basic_pending(queue: &VecDeque<PendingUse>) -> (r: Option<usize>)
    ensures
        match r {
            Some(i) => last_basic(pending_uses_view(queue@)) == Some(i as int),
            None => last_basic(pending_uses_view(queue@)) is None,
        },
{
    let mut i: usize = queue.len();
    assert(pending_uses_view(queue@).take(i as int) =~= pending_uses_view(queue@));
    while i > 0
        invariant
            i <= queue@.len(),
            last_basic(pending_uses_view(queue@)) == last_basic(pending_uses_view(queue@).take(i as int)),
        decreases i,
    {
        let ghost t = pending_uses_view(queue@).take(i as int);
        assert(t.last() == queue@[i - 1].uv());
        assert(t.drop_last() =~= pending_uses_view(queue@).take(i - 1));
        if let SurveyUseKind::Basic = queue[i - 1].kind {
            return Some(i - 1);
        }
        i -= 1;
    }
    None
}

/// What the active motherlode says of a mining gain from `node` at `now`.
#[derive(Debug, Clone, Copy, PartialEq, Eq, Structural)]
pub enum MotherlodeStep {
    /// No motherlode is collecting.
    Idle,
    /// Same node within the same swing: the gain belongs to this use.
    Attribute(i64),
    /// Another node or too late: this use is complete and no longer active.
    Complete(i64),
}

/// Gains from the adopted node within one second of its first gain belong
/// to the motherlode use; anything else completes it.
pub open spec fn motherlode_step(active: Option<(u32, i64, u32)>, node: u32, now: Option<u32>) -> MotherlodeStep {
    match active {
        None => MotherlodeStep::Idle,
        Some((n, u, first)) => if n == node && (now matches Some(s) && age(s, first)
            <= MOTHERLODE_SAME_SWING_SECS) {
            MotherlodeStep::Attribute(u)
        } else {
            MotherlodeStep::Complete(u)
        },
    }
}

pub fn motherlode_decision(active: Option<(u32, i64, u32)>, node: u32, now: Option<u32>) -> (r:
    MotherlodeStep)
    ensures
        r == motherlode_step(active, node, now),
{
    match active {
        None => MotherlodeStep::Idle,
        Some((n, u, first)) => {
            let within = match now {
                Some(s) => {
                    let a = if s >= first {
                        s - first
                    } else {
                        0
                    };
                    a <= MOTHERLODE_SAME_SWING_SECS
                },
                None => false,
            };
            if n == node && within {
                MotherlodeStep::Attribute(u)
            } else {
                MotherlodeStep::Complete(u)
            }
        },
    }
}

/// A basic-survey gain that came before its map was consumed.
pub struct DeferredBasicGain {
    /// 1 for an added item, the delta for a stack change.
    pub qty: u32,
    pub timestamp_hms: Option<String>,
}

pub open spec fn deferred_total(v: Seq<DeferredBasicGain>) -> int
    decreases v.len(),
{
    if v.len() == 0 {
        0
    } else {
        deferred_total(v.drop_last()) + v.last().qty
    }
}

/// Total quantity of the deferred gains.
pub fn total_deferred_qty(v: &Vec<DeferredBasicGain>) -> (r: u32)
    requires
        deferred_total(v@) <= u32::MAX,
    ensures
        r as int == deferred_total(v@),
{
    let mut total: u32 = 0;
    let mut i: usize = 0;
    proof {
        lemma_deferred_total_mono(v@);
    }
    while i < v.len()
        invariant
            i <= v@.len(),
            total as int == deferred_total(v@.take(i as int)),
            deferred_total(v@) <= u32::MAX,
            forall|k: int| 0 <= k <= v@.len() ==> deferred_total(#[trigger] v@.take(k)) <= deferred_total(v@),
        decreases v.len() - i,
    {
        assert(v@.take(i + 1).drop_last() =~= v@.take(i as int));
        assert(deferred_total(v@.take(i + 1)) <= deferred_total(v@));
        total = total + v[i].qty;
        i += 1;
    }
    assert(v@.take(v@.len() as int) =~= v@);
    total
}

proof fn lemma_deferred_total_mono(v: Seq<DeferredBasicGain>)
    ensures
        forall|k: int| 0 <= k <= v.len() ==> deferred_total(#[trigger] v.take(k)) <= deferred_total(v),
    decreases v.len(),
{
    if v.len() > 0 {
        lemma_deferred_total_mono(v.drop_last());
        assert forall|k: int| 0 <= k <= v.len() implies deferred_total(#[trigger] v.take(k))
            <= deferred_total(v) by {
            if k < v.len() {
                assert(v.take(k) =~= v.drop_last().take(k));
            } else {
                assert(v.take(k) =~= v);
            }
        }
    }
}


// ============================================================
// Which survey use a gain belongs to
// ============================================================

/// The aggregator's attribution state: the consumed maps waiting for loot,
/// the motherlode collecting its swing, the node being mined, the basic use
/// a following speed-bonus text belongs to, and basic-survey gains that came
/// before their map was consumed.
pub struct AttributionState {
    pub pending_uses: VecDeque<PendingUse>,
    pub active_motherlode: Option<(u32, i64, u32)>,
    pub current_mining_node: Option<u32>,
    pub last_basic_use_for_bonus: Option<i64>,
    pub deferred: Vec<DeferredBasicGain>,
}

/// The view of an [`AttributionState`].
pub struct AttributionView {
    pub pending: Seq<PendingUseV>,
    pub motherlode: Option<(u32, i64, u32)>,
    pub mining_node: Option<u32>,
    pub bonus_use: Option<i64>,
    pub deferred: Seq<(u32, Option<Seq<char>>)>,
}

pub open spec fn hms_view(o: Option<String>) -> Option<Seq<char>> {
    match o {
        Some(s) => Some(s@),
        None => None,
    }
}

pub open spec fn deferred_view(v: Seq<DeferredBasicGain>) -> Seq<(u32, Option<Seq<char>>)> {
    v.map_values(|g: DeferredBasicGain| (g.qty, hms_view(g.timestamp_hms)))
}

impl View for AttributionState {
    type V = AttributionView;

    open spec fn view(&self) -> AttributionView {
        AttributionView {
            pending: pending_uses_view(self.pending_uses@),
            motherlode: self.active_motherlode,
            mining_node: self.current_mining_node,
            bonus_use: self.last_basic_use_for_bonus,
            deferred: deferred_view(self.deferred@),
        }
    }
}

impl AttributionState {
    /// Nothing pending, nothing active.
    pub fn new() -> (r: Self)
        ensures
            r@.pending.len() == 0,
            r@.motherlode is None,
            r@.mining_node is None,
            r@.bonus_use is None,
            r@.deferred.len() == 0,
    {
        AttributionState {
            pending_uses: VecDeque::new(),
            active_motherlode: None,
            current_mining_node: None,
            last_basic_use_for_bonus: None,
            deferred: Vec::new(),
        }
    }
}

/// A consumed survey map joins the queue; a basic survey map also takes
/// the gains that came before it, which are handed back for booking.
pub fn record_use(state: &mut AttributionState, use_id: i64, kind: SurveyUseKind, now_secs: u32) -> (drained:
    Vec<DeferredBasicGain>)
    ensures
        final(state)@.pending == old(state)@.pending.push((use_id, kind, now_secs)),
        final(state)@.motherlode == old(state)@.motherlode,
        final(state)@.mining_node == old(state)@.mining_node,
        final(state)@.bonus_use == old(state)@.bonus_use,
        kind == SurveyUseKind::Basic ==> deferred_view(drained@) == old(state)@.deferred
            && final(state)@.deferred.len() == 0,
        kind != SurveyUseKind::Basic ==> drained@.len() == 0 && final(state)@.deferred
            == old(state)@.deferred,
{
    let ghost before = state.pending_uses@;
    state.pending_uses.push_back(PendingUse { survey_use_id: use_id, kind, used_at_secs: now_secs });
    assert(pending_uses_view(state.pending_uses@) =~= pending_uses_view(before).push(
        (use_id, kind, now_secs),
    ));
    let mut drained: Vec<DeferredBasicGain> = Vec::new();
    if let SurveyUseKind::Basic = kind {
        std::mem::swap(&mut drained, &mut state.deferred);
        assert(deferred_view(state.deferred@) =~= Seq::empty());
    }
    drained
}

/// What the aggregator is to do for one gain, in order.
#[derive(Debug, Clone, Copy, PartialEq, Eq, Structural)]
pub enum AttributionAction {
    /// Add the gain's quantity to the use's loot (and stamp its session).
    AddLoot { use_id: i64, qty: u32 },
    /// Mark the use completed.
    Complete { use_id: i64 },
    /// Open a multihit node row for the use.
    OpenNode { node: u32, use_id: i64 },
    /// Record a new hit on an open multihit node.
    TouchNode { node: u32 },
    /// Stamp the use onto the gain's provenance.
    Inject { use_id: i64 },
    /// The gain waits for its basic survey map to be consumed.
    Defer { qty: u32 },
}

/// The state with the queue replaced.
pub open spec fn with_pending(s: AttributionView, q: Seq<PendingUseV>) -> AttributionView {
    AttributionView {
        pending: q,
        motherlode: s.motherlode,
        mining_node: s.mining_node,
        bonus_use: s.bonus_use,
        deferred: s.deferred,
    }
}

/// A gain credited to `u`: its loot, then its provenance.
pub open spec fn credit(u: i64, qty: u32) -> Seq<AttributionAction> {
    seq![AttributionAction::AddLoot { use_id: u, qty: qty }, AttributionAction::Inject { use_id: u }]
}

/// A basic-survey gain goes to the most recent queued basic use, which it
/// completes; with none queued it waits.
pub open spec fn basic_step(s: AttributionView, qty: u32, hms: Option<Seq<char>>) -> (
    AttributionView,
    Seq<AttributionAction>,
) {
    match last_basic(s.pending) {
        Some(i) => {
            let u = s.pending[i].0;
            (
                AttributionView {
                    pending: s.pending.remove(i),
                    motherlode: s.motherlode,
                    mining_node: s.mining_node,
                    bonus_use: Some(u),
                    deferred: s.deferred,
                },
                credit(u, qty).push(AttributionAction::Complete { use_id: u }),
            )
        },
        None => (
            AttributionView {
                pending: s.pending,
                motherlode: s.motherlode,
                mining_node: s.mining_node,
                bonus_use: s.bonus_use,
                deferred: s.deferred.push((qty, hms)),
            },
            seq![AttributionAction::Defer { qty: qty }],
        ),
    }
}

/// A mining gain with the motherlode settled: an open multihit node on the
/// mined entity takes it; else the first queued use within the grace
/// window is adopted by the node (a multihit use opens it, a motherlode use
/// starts collecting its swing).
pub open spec fn adopt_step(
    s: AttributionView,
    qty: u32,
    node: u32,
    now: Option<u32>,
    open_node_use: Option<i64>,
) -> (AttributionView, Seq<AttributionAction>) {
    match open_node_use {
        Some(u) => (s, seq![AttributionAction::TouchNode { node: node }] + credit(u, qty)),
        None => match now {
            None => (s, seq![]),
            Some(t) => match first_in_grace(s.pending, t) {
                None => (s, seq![]),
                Some(i) => {
                    let p = s.pending[i];
                    let rest = with_pending(s, s.pending.remove(i));
                    match p.1 {
                        SurveyUseKind::Multihit => (
                            AttributionView {
                                pending: rest.pending,
                                motherlode: rest.motherlode,
                                mining_node: Some(node),
                                bonus_use: rest.bonus_use,
                                deferred: rest.deferred,
                            },
                            seq![AttributionAction::OpenNode { node: node, use_id: p.0 }] + credit(
                                p.0,
                                qty,
                            ),
                        ),
                        SurveyUseKind::Motherlode => (
                            AttributionView {
                                pending: rest.pending,
                                motherlode: Some((node, p.0, t)),
                                mining_node: Some(node),
                                bonus_use: rest.bonus_use,
                                deferred: rest.deferred,
                            },
                            credit(p.0, qty),
                        ),
                        SurveyUseKind::Basic => (rest, credit(p.0, qty)),
                    }
                },
            },
        },
    }
}

/// One gain `(qty, mining node, basic survey gain)` met with the state: a
/// basic-survey gain goes by [`basic_step`]; a gain with no mining node is
/// no survey loot; a mining gain in the active motherlode's swing is its
/// loot, while any other gain completes that motherlode and goes on to
/// [`adopt_step`].
pub open spec fn attribution_step(
    s: AttributionView,
    gain: (u32, Option<u32>, bool),
    hms: Option<Seq<char>>,
    now: Option<u32>,
    open_node_use: Option<i64>,
) -> (AttributionView, Seq<AttributionAction>) {
    let qty = gain.0;
    if gain.2 {
        basic_step(s, qty, hms)
    } else {
        match gain.1 {
            None => (s, seq![]),
            Some(node) => match motherlode_step(s.motherlode, node, now) {
                MotherlodeStep::Attribute(u) => (s, credit(u, qty)),
                MotherlodeStep::Complete(u) => {
                    let s1 = AttributionView {
                        pending: s.pending,
                        motherlode: None,
                        mining_node: s.mining_node,
                        bonus_use: s.bonus_use,
                        deferred: s.deferred,
                    };
                    let r = adopt_step(s1, qty, node, now, open_node_use);
                    (r.0, seq![AttributionAction::Complete { use_id: u }] + r.1)
                },
                MotherlodeStep::Idle => adopt_step(s, qty, node, now, open_node_use),
            },
        }
    }
}

/// An action that books the gain's quantity somewhere.
pub open spec fn books_loot(a: AttributionAction) -> bool {
    a is AddLoot || a is Defer
}

/// Each gain is booked at most once and with its own quantity; loot added
/// to a use is stamped onto the gain right after; and a gain takes at most
/// one use off the queue of consumed maps, never adding one.
pub proof fn law_gain_booked_once(
    s: AttributionView,
    gain: (u32, Option<u32>, bool),
    hms: Option<Seq<char>>,
    now: Option<u32>,
    open_node_use: Option<i64>,
)
    ensures
        ({
            let (s2, acts) = attribution_step(s, gain, hms, now, open_node_use);
            &&& forall|i: int, j: int|
                0 <= i < acts.len() && 0 <= j < acts.len() && books_loot(#[trigger] acts[i])
                    && books_loot(#[trigger] acts[j]) ==> i == j
            &&& forall|i: int|
                0 <= i < acts.len() ==> match #[trigger] acts[i] {
                    AttributionAction::AddLoot { use_id, qty } => qty == gain.0 && i + 1 < acts.len()
                        && acts[i + 1] == AttributionAction::Inject { use_id: use_id },
                    AttributionAction::Defer { qty } => qty == gain.0,
                    _ => true,
                }
            &&& s.pending.len() - 1 <= s2.pending.len() <= s.pending.len()
        }),
{
    lemma_last_basic(s.pending);
    if let Some(t) = now {
        lemma_first_in_grace(s.pending, t);
    }
}

fn push_credit(acts: &mut Vec<AttributionAction>, u: i64, qty: u32)
    ensures
        final(acts)@ == old(acts)@ + credit(u, qty),
{
    acts.push(AttributionAction::AddLoot { use_id: u, qty });
    acts.push(AttributionAction::Inject { use_id: u });
    assert(final(acts)@ =~= old(acts)@ + credit(u, qty));
}

fn adopt_gain(
    state: &mut AttributionState,
    acts: &mut Vec<AttributionAction>,
    qty: u32,
    node: u32,
    now_secs: Option<u32>,
    open_node_use: Option<i64>,
)
    ensures
        final(state)@ == adopt_step(old(state)@, qty, node, now_secs, open_node_use).0,
        final(acts)@ == old(acts)@ + adopt_step(old(state)@, qty, node, now_secs, open_node_use).1,
{
    if let Some(u) = open_node_use {
        acts.push(AttributionAction::TouchNode { node });
        push_credit(acts, u, qty);
        assert(acts@ =~= old(acts)@ + (seq![AttributionAction::TouchNode { node: node }] + credit(u, qty)));
        return;
    }
    let t = match now_secs {
        Some(t) => t,
        None => {
            assert(acts@ =~= old(acts)@ + seq![]);
            return;
        },
    };
    let ghost before = state@;
    let taken = take_pending_for_mining(&mut state.pending_uses, t);
    match taken {
        None => {
            assert(acts@ =~= old(acts)@ + seq![]);
        },
        Some(p) => {
            match p.kind {
                SurveyUseKind::Multihit => {
                    acts.push(AttributionAction::OpenNode { node, use_id: p.survey_use_id });
                    state.current_mining_node = Some(node);
                },
                SurveyUseKind::Motherlode => {
                    state.current_mining_node = Some(node);
                    state.active_motherlode = Some((node, p.survey_use_id, t));
                },
                SurveyUseKind::Basic => {},
            }
            push_credit(acts, p.survey_use_id, qty);
            proof {
                if p.kind == SurveyUseKind::Multihit {
                    assert(acts@ =~= old(acts)@ + (seq![
                        AttributionAction::OpenNode { node: node, use_id: p.survey_use_id },
                    ] + credit(p.survey_use_id, qty)));
                }
            }
        },
    }
}

/// Attribute one gain (see [`attribution_step`]): `gain` is the gain's
/// reading by [`gain_info`], `gain_hms` its `HH:MM:SS`, `now_secs` its
/// second of the day, and `open_node_use` the use of the open multihit node
/// on the mined entity, if any. The state changes as the step says and the
/// actions it returns are for the caller to carry out, in order.
pub fn attribute_gain(
    state: &mut AttributionState,
    gain: (u32, Option<u32>, bool),
    gain_hms: Option<String>,
    now_secs: Option<u32>,
    open_node_use: Option<i64>,
) -> (r: Vec<AttributionAction>)
    ensures
        (final(state)@, r@) == attribution_step(old(state)@, gain, hms_view(gain_hms), now_secs, open_node_use),
{
    let qty = gain.0;
    let mut acts: Vec<AttributionAction> = Vec::new();
    if gain.2 {
        match last_basic_pending(&state.pending_uses) {
            Some(i) => {
                let ghost before = pending_uses_view(state.pending_uses@);
                proof {
                    lemma_last_basic(before);
                    assert(before[i as int] == state.pending_uses@[i as int].uv());
                }
                let u = state.pending_uses[i].survey_use_id;
                state.pending_uses.remove(i);
                assert(pending_uses_view(state.pending_uses@) =~= before.remove(i as int));
                state.last_basic_use_for_bonus = Some(u);
                push_credit(&mut acts, u, qty);
                acts.push(AttributionAction::Complete { use_id: u });
            },
            None => {
                let ghost before = state.deferred@;
                state.deferred.push(DeferredBasicGain { qty, timestamp_hms: gain_hms });
                assert(deferred_view(state.deferred@) =~= deferred_view(before).push(
                    (qty, hms_view(gain_hms)),
                ));
                acts.push(AttributionAction::Defer { qty });
                assert(acts@ =~= seq![AttributionAction::Defer { qty: qty }]);
            },
        }
        return acts;
    }
    let node = match gain.1 {
        Some(n) => n,
        None => {
            assert(acts@ =~= seq![]);
            return acts;
        },
    };
    match motherlode_decision(state.active_motherlode, node, now_secs) {
        MotherlodeStep::Attribute(u) => {
            push_credit(&mut acts, u, qty);
            assert(acts@ =~= credit(u, qty));
        },
        MotherlodeStep::Complete(u) => {
            acts.push(AttributionAction::Complete { use_id: u });
            state.active_motherlode = None;
            adopt_gain(state, &mut acts, qty, node, now_secs, open_node_use);
        },
        MotherlodeStep::Idle => {
            adopt_gain(state, &mut acts, qty, node, now_secs, open_node_use);
            assert(acts@ =~= seq![] + acts@);
        },
    }
    acts
}


// ============================================================
// What an event means to the survey tracker
// ============================================================

/// The survey-relevant reading of a parser event.
#[derive(Debug, Clone, PartialEq, Eq)]
pub enum SurveySignal {
    /// A new item entered the inventory (a survey map, if its kind says so).
    NewItem { item_name: String, timestamp: String },
    /// A named item left the inventory (a consumed survey map, if so).
    ItemGone { item_name: String, timestamp: String },
    /// A mining delay loop started.
    MiningStarted { timestamp: String },
    /// A screen text announcing a speed bonus.
    SpeedBonus { message: String },
    /// Nothing for the survey tracker.
    Other,
}

/// The view of a [`SurveySignal`].
pub enum SignalV {
    NewItem { item_name: Seq<char>, timestamp: Seq<char> },
    ItemGone { item_name: Seq<char>, timestamp: Seq<char> },
    MiningStarted { timestamp: Seq<char> },
    SpeedBonus { message: Seq<char> },
    Other,
}

impl SurveySignal {
    pub open spec fn gv(self) -> SignalV {
        match self {
            SurveySignal::NewItem { item_name, timestamp } => SignalV::NewItem {
                item_name: item_name@,
                timestamp: timestamp@,
            },
            SurveySignal::ItemGone { item_name, timestamp } => SignalV::ItemGone {
                item_name: item_name@,
                timestamp: timestamp@,
            },
            SurveySignal::MiningStarted { timestamp } => SignalV::MiningStarted {
                timestamp: timestamp@,
            },
            SurveySignal::SpeedBonus { message } => SignalV::SpeedBonus { message: message@ },
            SurveySignal::Other => SignalV::Other,
        }
    }
}

/// New items (`isNew`), deletions of named items, mining loops and
/// speed-bonus screen texts matter; nothing else does.
pub open spec fn signal_of(e: crate::player_events::EventV) -> SignalV {
    match e {
        crate::player_events::EventV::ItemAdded { item_name, is_new, ts, .. } => if is_new {
            SignalV::NewItem { item_name, timestamp: ts }
        } else {
            SignalV::Other
        },
        crate::player_events::EventV::ItemDeleted { item_name: Some(n), ts, .. } =>
            SignalV::ItemGone { item_name: n, timestamp: ts },
        crate::player_events::EventV::DelayLoopStarted { action_type, label, ts, .. } =>
            if mining_loop(action_type, label) {
            SignalV::MiningStarted { timestamp: ts }
        } else {
            SignalV::Other
        },
        crate::player_events::EventV::ScreenText { message, .. } => if contains(
            message,
            "(speed bonus!)"@,
        ) {
            SignalV::SpeedBonus { message }
        } else {
            SignalV::Other
        },
        _ => SignalV::Other,
    }
}

pub fn survey_signal(event: &PlayerEvent) -> (r: SurveySignal)
    ensures
        r.gv() == signal_of(event.ev()),
{
    match event {
        PlayerEvent::ItemAdded { item_name, is_new, timestamp, .. } => {
            if *is_new {
                SurveySignal::NewItem { item_name: item_name.clone(), timestamp: timestamp.clone() }
            } else {
                SurveySignal::Other
            }
        },
        PlayerEvent::ItemDeleted { item_name: Some(name), timestamp, .. } => SurveySignal::ItemGone {
            item_name: name.clone(),
            timestamp: timestamp.clone(),
        },
        PlayerEvent::DelayLoopStarted { action_type, label, timestamp, .. } => {
            if is_mining_loop(action_type.as_str(), label.as_str()) {
                SurveySignal::MiningStarted { timestamp: timestamp.clone() }
            } else {
                SurveySignal::Other
            }
        },
        PlayerEvent::ScreenText { message, .. } => {
            let m = chars_of(message.as_str());
            if contains_str(m.as_slice(), "(speed bonus!)") {
                SurveySignal::SpeedBonus { message: message.clone() }
            } else {
                SurveySignal::Other
            }
        },
        _ => SurveySignal::Other,
    }
}

// ============================================================
// Session lifecycle
// ============================================================

/// Which session a craft or a use goes to.
#[derive(Debug, Clone, Copy, PartialEq, Eq, Structural)]
pub enum SessionPlan {
    /// The active session.
    Active(i64),
    /// Start a session with this trigger.
    Start(SessionStartTrigger),
    /// No session: the craft is ignored, the use is recorded without one.
    NoSession,
}

/// A craft goes to the active session, or starts a crafting session when
/// auto-start is on.
pub open spec fn craft_plan(active: Option<i64>, auto_start: bool) -> SessionPlan {
    match active {
        Some(id) => SessionPlan::Active(id),
        None => if auto_start {
            SessionPlan::Start(SessionStartTrigger::Crafting)
        } else {
            SessionPlan::NoSession
        },
    }
}

/// A use goes to the active session, or starts a first-use session when
/// auto-start is on.
pub open spec fn use_plan(active: Option<i64>, auto_start: bool) -> SessionPlan {
    match active {
        Some(id) => SessionPlan::Active(id),
        None => if auto_start {
            SessionPlan::Start(SessionStartTrigger::FirstUse)
        } else {
            SessionPlan::NoSession
        },
    }
}

pub fn plan_for_craft(active: Option<i64>, auto_start: bool) -> (r: SessionPlan)
    ensures
        r == craft_plan(active, auto_start),
{
    match active {
        Some(id) => SessionPlan::Active(id),
        None => if auto_start {
            SessionPlan::Start(SessionStartTrigger::Crafting)
        } else {
            SessionPlan::NoSession
        },
    }
}

pub fn plan_for_use(active: Option<i64>, auto_start: bool) -> (r: SessionPlan)
    ensures
        r == use_plan(active, auto_start),
{
    match active {
        Some(id) => SessionPlan::Active(id),
        None => if auto_start {
            SessionPlan::Start(SessionStartTrigger::FirstUse)
        } else {
            SessionPlan::NoSession
        },
    }
}

/// A crafting session ends by itself once it crafted something, consumed
/// at least as much, and no use still waits for loot.
pub open spec fn auto_end(
    trigger: SessionStartTrigger,
    crafted: Option<u32>,
    consumed: u32,
    has_pending: bool,
) -> bool {
    let c = match crafted {
        Some(n) => n,
        None => 0,
    };
    trigger == SessionStartTrigger::Crafting && c != 0 && consumed >= c && !has_pending
}

pub fn should_auto_end(session: &SurveySession, has_pending_uses: bool) -> (r: bool)
    ensures
        r == auto_end(session.start_trigger, session.crafted_count, session.consumed_count, has_pending_uses),
{
    let crafting = match session.start_trigger {
        SessionStartTrigger::Crafting => true,
        _ => false,
    };
    let crafted = match session.crafted_count {
        Some(n) => n,
        None => 0,
    };
    crafting && crafted != 0 && session.consumed_count >= crafted && !has_pending_uses
}

/// Crafts and uses are planned alike, save for the session they start: a
/// craft starts a crafting session, a use a first-use session; each joins
/// the active session when there is one and starts none when auto-start is
/// off.
pub proof fn law_session_plans(active: Option<i64>, auto_start: bool)
    ensures
        craft_plan(active, auto_start) is Start ==> craft_plan(active, auto_start) == SessionPlan::Start(
            SessionStartTrigger::Crafting,
        ),
        use_plan(active, auto_start) is Start ==> use_plan(active, auto_start) == SessionPlan::Start(
            SessionStartTrigger::FirstUse,
        ),
        use_plan(active, auto_start) is Start <==> craft_plan(active, auto_start) is Start,
        use_plan(active, auto_start) is Start <==> (active is None && auto_start),
        !(use_plan(active, auto_start) is Start) ==> use_plan(active, auto_start) == craft_plan(
            active,
            auto_start,
        ),
        active matches Some(id) ==> use_plan(active, auto_start) == SessionPlan::Active(id),
{
}

/// A session ends by itself exactly when it was started by crafting,
/// crafted something, has consumed every map it crafted (or more), and no
/// use waits for loot; consuming one more map never undoes that.
pub proof fn law_auto_end_when_crafted_maps_consumed(
    trigger: SessionStartTrigger,
    crafted: Option<u32>,
    consumed: u32,
    has_pending: bool,
)
    ensures
        auto_end(trigger, crafted, consumed, has_pending) <==> (trigger == SessionStartTrigger::Crafting
            && !has_pending && crafted is Some && 0 < crafted->0 && crafted->0 <= consumed),
        consumed < u32::MAX && auto_end(trigger, crafted, consumed, has_pending) ==> auto_end(
            trigger,
            crafted,
            (consumed + 1) as u32,
            has_pending,
        ),
{
}

} // verus!
