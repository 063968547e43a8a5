//! Activity contexts: what the player is doing, reconstructed from the log,
//! and how an inventory gain is attributed to it.
//!
//! Contexts are opened by reliable signals (a `ProcessDoDelayLoop` action
//! type and label, or screen-specific events such as a corpse `TalkScreen`)
//! and close on an explicit end signal or a deadline.

use vstd::prelude::*;
use crate::text::{
    CharClass, copy_range, ends_with, ends_with_str, eq_chars, eq_str, starts_with, strip_prefix,
    strip_prefix_str, string_of, trim, trim_end_by, trim_end_class, trim_ws,
};
use crate::player_events::{
    ActivityContext, ActivitySource, AttributionConfidence, ContextV, ItemProvenance, ProvV,
    SourceV, clone_ostr, contexts_view, ostr, sources_view,
};
use crate::report_stats::{lowercase, to_lowercase};

verus! {

/// Metadata of the last `ProcessStartInteraction`, kept briefly to enrich
/// the next screen-specific event.
pub struct PendingInteractionMeta {
    pub entity_id: u32,
    /// The interaction's name, when it was not empty.
    pub name: Option<String>,
    pub captured_at_secs: u32,
}

/// View of a [`PendingInteractionMeta`]: entity, name, capture second.
pub type PendingV = (u32, Option<Seq<char>>, u32);

impl PendingInteractionMeta {
    pub open spec fn pv(self) -> PendingV {
        (self.entity_id, ostr(self.name), self.captured_at_secs)
    }
}

pub open spec fn pending_view(p: Option<PendingInteractionMeta>) -> Option<PendingV> {
    match p {
        Some(m) => Some(m.pv()),
        None => None,
    }
}

// ============================================================
// Classifying delay loops
// ============================================================

/// The action types whose delay loops are generic crafting.
pub open spec fn craft_action(at: Seq<char>) -> bool {
    at == "ChopLumber"@ || at == "Cook"@ || at == "Brew"@ || at == "Distill"@ || at == "Refine"@
        || at == "Smelt"@ || at == "Weave"@ || at == "Assemble"@ || at == "Forge"@
}

/// The label with surrounding blanks removed, lowercased, and trailing dots
/// and blanks removed: `"Mining ..."` and `"Mining..."` both give `"mining"`.
pub open spec fn label_core(label: Seq<char>) -> Seq<char> {
    trim_end_by(lowercase(trim(label)), CharClass::DotOrWhitespace)
}

/// The activity a delay loop starts, or `None` for loops that are no known
/// source of items:
/// - `mining` → mining, with the node taken from a pending interaction;
/// - `surveying` → crafting a survey map;
/// - `Using X Survey` / `Using X Motherlode Map` → using that map;
///   any other `Using ...` → generic craft/use;
/// - one of the crafting action types → generic craft.
pub open spec fn classify(at: Seq<char>, label: Seq<char>, pending: Option<PendingV>) -> Option<
    SourceV,
> {
    let lt = trim(label);
    let core = label_core(label);
    if core == "mining"@ {
        Some(
            match pending {
                Some((e, n, _)) => SourceV::Mining { node: Some(e), name: n },
                None => SourceV::Mining { node: None, name: None },
            },
        )
    } else if core == "surveying"@ {
        Some(SourceV::SurveyMapCraft)
    } else {
        match strip_prefix(lt, "Using "@) {
            Some(rest) => {
                let map = trim(rest);
                if ends_with(map, " Survey"@) || ends_with(map, " Motherlode Map"@) {
                    Some(SourceV::SurveyMapUse { map: Some(map) })
                } else {
                    Some(SourceV::GeneralCraft { action: at, label: lt })
                }
            },
            None => if craft_action(at) {
                Some(SourceV::GeneralCraft { action: at, label: lt })
            } else {
                None
            },
        }
    }
}

fn is_craft_action(at: &[char]) -> (r: bool)
    ensures
        r == craft_action(at@),
{
    eq_str(at, "ChopLumber") || eq_str(at, "Cook") || eq_str(at, "Brew") || eq_str(at, "Distill")
        || eq_str(at, "Refine") || eq_str(at, "Smelt") || eq_str(at, "Weave") || eq_str(
        at,
        "Assemble",
    ) || eq_str(at, "Forge")
}

/// Classify a `DoDelayLoop` into an activity source.
pub fn classify_delay_loop(
    action_type: &[char],
    label: &[char],
    pending_interaction: &Option<PendingInteractionMeta>,
) -> (r: Option<ActivitySource>)
    ensures
        match r {
            Some(s) => classify(action_type@, label@, pending_view(*pending_interaction)) == Some(
                s.sv(),
            ),
            None => classify(action_type@, label@, pending_view(*pending_interaction)) is None,
        },
{
    let lt = trim_ws(label);
    let lower = to_lowercase(lt.as_slice());
    let core = trim_end_class(lower.as_slice(), CharClass::DotOrWhitespace);
    if eq_str(core.as_slice(), "mining") {
        return Some(
            match pending_interaction {
                Some(pi) => ActivitySource::Mining {
                    node_entity_id: Some(pi.entity_id),
                    node_name: clone_ostr(&pi.name),
                },
                None => ActivitySource::Mining { node_entity_id: None, node_name: None },
            },
        );
    }
    if eq_str(core.as_slice(), "surveying") {
        return Some(ActivitySource::SurveyMapCraft);
    }
    match strip_prefix_str(lt.as_slice(), "Using ") {
        Some(rest) => {
            let map = trim_ws(rest.as_slice());
            if ends_with_str(map.as_slice(), " Survey") || ends_with_str(
                map.as_slice(),
                " Motherlode Map",
            ) {
                Some(
                    ActivitySource::SurveyMapUse {
                        survey_map_internal_name: Some(string_of(map.as_slice())),
                    },
                )
            } else {
                Some(
                    ActivitySource::GeneralCraft {
                        action_type: string_of(action_type),
                        label: string_of(lt.as_slice()),
                    },
                )
            }
        },
        None => {
            if is_craft_action(action_type) {
                Some(
                    ActivitySource::GeneralCraft {
                        action_type: string_of(action_type),
                        label: string_of(lt.as_slice()),
                    },
                )
            } else {
                None
            }
        },
    }
}

// ============================================================
// Comparing sources
// ============================================================

/// Same kind and same target: repeated delay loops on one target collapse
/// into one context.
pub open spec fn sources_match(a: SourceV, b: SourceV) -> bool {
    match (a, b) {
        (SourceV::Mining { node: x, .. }, SourceV::Mining { node: y, .. }) => x == y,
        (SourceV::SurveyMapCraft, SourceV::SurveyMapCraft) => true,
        (SourceV::SurveyMapUse { map: x }, SourceV::SurveyMapUse { map: y }) => x == y,
        (
            SourceV::GeneralCraft { action: ax, label: lx },
            SourceV::GeneralCraft { action: ay, label: ly },
        ) => ax == ay && lx == ly,
        (SourceV::CorpseSearch { entity: x, .. }, SourceV::CorpseSearch { entity: y, .. }) => x
            == y,
        (SourceV::VendorBrowsing { npc: x, .. }, SourceV::VendorBrowsing { npc: y, .. }) => x
            == y,
        (SourceV::StorageBrowsing { owner: x, .. }, SourceV::StorageBrowsing { owner: y, .. }) => x
            == y,
        _ => false,
    }
}

fn eq_opt_string(a: &Option<String>, b: &Option<String>) -> (r: bool)
    ensures
        r == (ostr(*a) == ostr(*b)),
{
    match (a, b) {
        (Some(x), Some(y)) => {
            let xs = crate::text::chars_of(x.as_str());
            let ys = crate::text::chars_of(y.as_str());
            eq_chars(xs.as_slice(), ys.as_slice())
        },
        (None, None) => true,
        _ => false,
    }
}

fn eq_string(a: &String, b: &String) -> (r: bool)
    ensures
        r == (a@ == b@),
{
    let xs = crate::text::chars_of(a.as_str());
    let ys = crate::text::chars_of(b.as_str());
    eq_chars(xs.as_slice(), ys.as_slice())
}

pub fn activity_source_matches(a: &ActivitySource, b: &ActivitySource) -> (r: bool)
    ensures
        r == sources_match(a.sv(), b.sv()),
{
    match (a, b) {
        (
            ActivitySource::Mining { node_entity_id: ea, .. },
            ActivitySource::Mining { node_entity_id: eb, .. },
        ) => match (ea, eb) {
            (Some(x), Some(y)) => *x == *y,
            (None, None) => true,
            _ => false,
        },
        (ActivitySource::SurveyMapCraft, ActivitySource::SurveyMapCraft) => true,
        (
            ActivitySource::SurveyMapUse { survey_map_internal_name: x },
            ActivitySource::SurveyMapUse { survey_map_internal_name: y },
        ) => eq_opt_string(x, y),
        (
            ActivitySource::GeneralCraft { action_type: ax, label: lx },
            ActivitySource::GeneralCraft { action_type: ay, label: ly },
        ) => eq_string(ax, ay) && eq_string(lx, ly),
        (
            ActivitySource::CorpseSearch { entity_id: x, .. },
            ActivitySource::CorpseSearch { entity_id: y, .. },
        ) => *x == *y,
        (
            ActivitySource::VendorBrowsing { npc_entity_id: x, .. },
            ActivitySource::VendorBrowsing { npc_entity_id: y, .. },
        ) => *x == *y,
        (
            ActivitySource::StorageBrowsing { vault_owner_entity_id: x, .. },
            ActivitySource::StorageBrowsing { vault_owner_entity_id: y, .. },
        ) => *x == *y,
        _ => false,
    }
}

// ============================================================
// Searching and filtering contexts
// ============================================================

/// Index of the first context satisfying `p`.
pub open spec fn first_index(cs: Seq<ContextV>, p: spec_fn(ContextV) -> bool) -> Option<int>
    decreases cs.len(),
{
    if cs.len() == 0 {
        None
    } else if p(cs[0]) {
        Some(0)
    } else {
        match first_index(cs.drop_first(), p) {
            Some(i) => Some(i + 1),
            None => None,
        }
    }
}

pub proof fn lemma_first_index(cs: Seq<ContextV>, p: spec_fn(ContextV) -> bool)
    ensures
        match first_index(cs, p) {
            Some(i) => 0 <= i < cs.len() && p(cs[i]) && forall|j: int| 0 <= j < i ==> !p(cs[j]),
            None => forall|j: int| 0 <= j < cs.len() ==> !p(cs[j]),
        },
    decreases cs.len(),
{
    if cs.len() > 0 && !p(cs[0]) {
        lemma_first_index(cs.drop_first(), p);
        match first_index(cs.drop_first(), p) {
            Some(i) => {
                assert forall|j: int| 0 <= j < i + 1 implies !p(cs[j]) by {
                    if j > 0 {
                        assert(cs[j] == cs.drop_first()[j - 1]);
                    }
                }
            },
            None => {
                assert forall|j: int| 0 <= j < cs.len() implies !p(cs[j]) by {
                    if j > 0 {
                        assert(cs[j] == cs.drop_first()[j - 1]);
                    }
                }
            },
        }
    }
}

/// The contexts satisfying `p`, in order.
pub open spec fn keep(cs: Seq<ContextV>, p: spec_fn(ContextV) -> bool) -> Seq<ContextV>
    decreases cs.len(),
{
    if cs.len() == 0 {
        Seq::empty()
    } else {
        let rest = keep(cs.drop_last(), p);
        if p(cs.last()) {
            rest.push(cs.last())
        } else {
            rest
        }
    }
}

pub open spec fn live_at(now: u32) -> spec_fn(ContextV) -> bool {
    |c: ContextV| now < c.close_deadline_secs
}

pub open spec fn not_for_entity(e: u32) -> spec_fn(ContextV) -> bool {
    |c: ContextV| c.entity_id != Some(e)
}

/// A copy of a context with the same view.
pub fn copy_context(c: &ActivityContext) -> (r: ActivityContext)
    ensures
        r.cv() == c.cv(),
{
    ActivityContext {
        source: c.source.duplicate(),
        started_at: c.started_at.clone(),
        started_at_secs: c.started_at_secs,
        close_deadline_secs: c.close_deadline_secs,
        entity_id: c.entity_id,
    }
}

/// Contexts whose deadline is still ahead of `now`.
pub fn retain_live(cs: &Vec<ActivityContext>, now: u32) -> (r: Vec<ActivityContext>)
    ensures
        contexts_view(r@) == keep(contexts_view(cs@), live_at(now)),
{
    let mut out: Vec<ActivityContext> = Vec::new();
    let mut i: usize = 0;
    while i < cs.len()
        invariant
            i <= cs@.len(),
            contexts_view(out@) == keep(contexts_view(cs@).take(i as int), live_at(now)),
        decreases cs.len() - i,
    {
        proof {
            let t = contexts_view(cs@).take(i + 1);
            assert(t.drop_last() =~= contexts_view(cs@).take(i as int));
            assert(t.last() == cs@[i as int].cv());
        }
        if now < cs[i].close_deadline_secs {
            let ghost before = out@;
            out.push(copy_context(&cs[i]));
            assert(contexts_view(out@) =~= contexts_view(before).push(cs@[i as int].cv()));
        }
        i += 1;
    }
    assert(contexts_view(cs@).take(cs@.len() as int) =~= contexts_view(cs@));
    out
}

/// Contexts not keyed to `entity`.
pub fn retain_not_entity(cs: &Vec<ActivityContext>, entity: u32) -> (r: Vec<ActivityContext>)
    ensures
        contexts_view(r@) == keep(contexts_view(cs@), not_for_entity(entity)),
{
    let mut out: Vec<ActivityContext> = Vec::new();
    let mut i: usize = 0;
    while i < cs.len()
        invariant
            i <= cs@.len(),
            contexts_view(out@) == keep(contexts_view(cs@).take(i as int), not_for_entity(entity)),
        decreases cs.len() - i,
    {
        proof {
            let t = contexts_view(cs@).take(i + 1);
            assert(t.drop_last() =~= contexts_view(cs@).take(i as int));
            assert(t.last() == cs@[i as int].cv());
        }
        let keep_it = match cs[i].entity_id {
            Some(e) => e != entity,
            None => true,
        };
        if keep_it {
            let ghost before = out@;
            out.push(copy_context(&cs[i]));
            assert(contexts_view(out@) =~= contexts_view(before).push(cs@[i as int].cv()));
        }
        i += 1;
    }
    assert(contexts_view(cs@).take(cs@.len() as int) =~= contexts_view(cs@));
    out
}

// ============================================================
// Provenance
// ============================================================

pub open spec fn is_mining_ctx() -> spec_fn(ContextV) -> bool {
    |c: ContextV| c.source is Mining
}

pub open spec fn is_passive(s: SourceV) -> bool {
    s is CorpseSearch || s is VendorBrowsing || s is StorageBrowsing
}

pub open spec fn ctx_sources(cs: Seq<ContextV>) -> Seq<SourceV> {
    cs.map_values(|c: ContextV| c.source)
}

/// Attribution of a gain to the active contexts:
/// - none active → unknown;
/// - exactly one → that one, confidently;
/// - several, the first mining one and all others passive screens (corpse,
///   vendor, storage) → that mining context, probably;
/// - otherwise uncertain among all of them.
pub open spec fn provenance_of(cs: Seq<ContextV>) -> ProvV {
    if cs.len() == 0 {
        ProvV::UnknownSource
    } else if cs.len() == 1 {
        ProvV::Attributed {
            source: cs[0].source,
            confidence: AttributionConfidence::Confident,
            survey_use_id: None,
        }
    } else {
        match first_index(cs, is_mining_ctx()) {
            Some(m) => if forall|j: int| 0 <= j < cs.len() && j != m ==> is_passive(cs[j].source) {
                ProvV::Attributed {
                    source: cs[m].source,
                    confidence: AttributionConfidence::Probable,
                    survey_use_id: None,
                }
            } else {
                ProvV::Uncertain { candidates: ctx_sources(cs) }
            },
            None => ProvV::Uncertain { candidates: ctx_sources(cs) },
        }
    }
}

fn first_mining(cs: &Vec<ActivityContext>) -> (r: Option<usize>)
    ensures
        match r {
            Some(i) => first_index(contexts_view(cs@), is_mining_ctx()) == Some(i as int),
            None => first_index(contexts_view(cs@), is_mining_ctx()) is None,
        },
{
    let mut i: usize = 0;
    while i < cs.len()
        invariant
            i <= cs@.len(),
            forall|j: int| 0 <= j < i ==> !(cs@[j].cv().source is Mining),
        decreases cs.len() - i,
    {
        if let ActivitySource::Mining { .. } = &cs[i].source {
            proof {
                let v = contexts_view(cs@);
                let p = is_mining_ctx();
                lemma_first_index(v, p);
                assert(v[i as int] == cs@[i as int].cv());
                assert(p(v[i as int]));
                match first_index(v, p) {
                    Some(k) => {
                        assert(v[k] == cs@[k].cv());
                        if k < i {
                            assert(!p(v[k]));
                        }
                    },
                    None => {},
                }
            }
            return Some(i);
        }
        i += 1;
    }
    proof {
        let v = contexts_view(cs@);
        lemma_first_index(v, is_mining_ctx());
        if let Some(k) = first_index(v, is_mining_ctx()) {
            assert(v[k] == cs@[k].cv());
        }
    }
    None
}

fn others_passive(cs: &Vec<ActivityContext>, m: usize) -> (r: bool)
    ensures
        r == forall|j: int|
            0 <= j < contexts_view(cs@).len() && j != m ==> is_passive(
                #[trigger] contexts_view(cs@)[j].source,
            ),
{
    let mut i: usize = 0;
    while i < cs.len()
        invariant
            i <= cs@.len(),
            forall|j: int| 0 <= j < i && j != m ==> is_passive(#[trigger] cs@[j].cv().source),
        decreases cs.len() - i,
    {
        if i != m {
            let passive = match &cs[i].source {
                ActivitySource::CorpseSearch { .. } => true,
                ActivitySource::VendorBrowsing { .. } => true,
                ActivitySource::StorageBrowsing { .. } => true,
                _ => false,
            };
            assert(passive == is_passive(cs@[i as int].cv().source));
            if !passive {
                assert(contexts_view(cs@)[i as int] == cs@[i as int].cv());
                return false;
            }
        }
        i += 1;
    }
    assert forall|j: int| 0 <= j < contexts_view(cs@).len() && j != m implies is_passive(
        #[trigger] contexts_view(cs@)[j].source,
    ) by {
        assert(contexts_view(cs@)[j] == cs@[j].cv());
    }
    true
}

/// The sources of all contexts, in order.
pub fn all_sources(cs: &Vec<ActivityContext>) -> (r: Vec<ActivitySource>)
    ensures
        sources_view(r@) == ctx_sources(contexts_view(cs@)),
{
    let mut out: Vec<ActivitySource> = Vec::new();
    let mut i: usize = 0;
    while i < cs.len()
        invariant
            i <= cs@.len(),
            sources_view(out@) == ctx_sources(contexts_view(cs@)).take(i as int),
        decreases cs.len() - i,
    {
        let ghost before = out@;
        let d = cs[i].source.duplicate();
        out.push(d);
        assert(contexts_view(cs@)[i as int] == cs@[i as int].cv());
        assert(ctx_sources(contexts_view(cs@))[i as int] == d.sv());
        assert(sources_view(out@) =~= sources_view(before).push(d.sv()));
        assert(sources_view(out@) =~= ctx_sources(contexts_view(cs@)).take(i + 1));
        i += 1;
    }
    assert(ctx_sources(contexts_view(cs@)).take(cs@.len() as int) =~= ctx_sources(
        contexts_view(cs@),
    ));
    out
}

/// Attribute a gain to the active contexts.
pub fn compute_provenance(cs: &Vec<ActivityContext>) -> (r: ItemProvenance)
    ensures
        r.pv() == provenance_of(contexts_view(cs@)),
{
    if cs.len() == 0 {
        return ItemProvenance::UnknownSource;
    }
    if cs.len() == 1 {
        assert(contexts_view(cs@)[0] == cs@[0].cv());
        return ItemProvenance::Attributed {
            source: cs[0].source.duplicate(),
            confidence: AttributionConfidence::Confident,
            survey_use_id: None,
        };
    }
    if let Some(m) = first_mining(cs) {
        proof {
            lemma_first_index(contexts_view(cs@), is_mining_ctx());
        }
        if others_passive(cs, m) {
            assert(contexts_view(cs@)[m as int] == cs@[m as int].cv());
            return ItemProvenance::Attributed {
                source: cs[m].source.duplicate(),
                confidence: AttributionConfidence::Probable,
                survey_use_id: None,
            };
        }
    }
    ItemProvenance::Uncertain { candidates: all_sources(cs) }
}

/// Storage withdrawals go to the storage context of the same vault owner,
/// else to any storage context, else to the general attribution.
pub open spec fn storage_provenance(cs: Seq<ContextV>, npc: u32) -> ProvV {
    match first_index(cs, owner_is(npc)) {
        Some(i) => ProvV::Attributed {
            source: cs[i].source,
            confidence: AttributionConfidence::Confident,
            survey_use_id: None,
        },
        None => match first_index(cs, is_storage_ctx()) {
            Some(i) => ProvV::Attributed {
                source: cs[i].source,
                confidence: AttributionConfidence::Confident,
                survey_use_id: None,
            },
            None => provenance_of(cs),
        },
    }
}

pub open spec fn owner_is(npc: u32) -> spec_fn(ContextV) -> bool {
    |c: ContextV| c.source matches SourceV::StorageBrowsing { owner, .. } && owner == npc
}

pub open spec fn is_storage_ctx() -> spec_fn(ContextV) -> bool {
    |c: ContextV| c.source is StorageBrowsing
}

fn first_storage(cs: &Vec<ActivityContext>, owner: Option<u32>) -> (r: Option<usize>)
    ensures
        match owner {
            Some(npc) => match r {
                Some(i) => first_index(contexts_view(cs@), owner_is(npc)) == Some(i as int),
                None => first_index(contexts_view(cs@), owner_is(npc)) is None,
            },
            None => match r {
                Some(i) => first_index(contexts_view(cs@), is_storage_ctx()) == Some(i as int),
                None => first_index(contexts_view(cs@), is_storage_ctx()) is None,
            },
        },
{
    let ghost p = match owner {
        Some(npc) => owner_is(npc),
        None => is_storage_ctx(),
    };
    let mut i: usize = 0;
    while i < cs.len()
        invariant
            i <= cs@.len(),
            p == match owner {
                Some(npc) => owner_is(npc),
                None => is_storage_ctx(),
            },
            forall|j: int| 0 <= j < i ==> !p(#[trigger] cs@[j].cv()),
        decreases cs.len() - i,
    {
        let hit = match &cs[i].source {
            ActivitySource::StorageBrowsing { vault_owner_entity_id, .. } => match owner {
                Some(npc) => *vault_owner_entity_id == npc,
                None => true,
            },
            _ => false,
        };
        assert(hit == p(cs@[i as int].cv()));
        if hit {
            proof {
                let v = contexts_view(cs@);
                lemma_first_index(v, p);
                assert(v[i as int] == cs@[i as int].cv());
                match first_index(v, p) {
                    Some(k) => {
                        assert(v[k] == cs@[k].cv());
                        if k < i {
                            assert(!p(cs@[k].cv()));
                        }
                    },
                    None => {},
                }
            }
            return Some(i);
        }
        i += 1;
    }
    proof {
        let v = contexts_view(cs@);
        lemma_first_index(v, p);
        if let Some(k) = first_index(v, p) {
            assert(v[k] == cs@[k].cv());
        }
    }
    None
}

/// Attribute a storage withdrawal from vault owner `npc`.
pub fn compute_storage_provenance(cs: &Vec<ActivityContext>, npc: u32) -> (r: ItemProvenance)
    ensures
        r.pv() == storage_provenance(contexts_view(cs@), npc),
{
    let found = match first_storage(cs, Some(npc)) {
        Some(i) => Some(i),
        None => first_storage(cs, None),
    };
    proof {
        lemma_first_index(contexts_view(cs@), owner_is(npc));
        lemma_first_index(contexts_view(cs@), is_storage_ctx());
    }
    match found {
        Some(i) => {
            assert(contexts_view(cs@)[i as int] == cs@[i as int].cv());
            ItemProvenance::Attributed {
                source: cs[i].source.duplicate(),
                confidence: AttributionConfidence::Confident,
                survey_use_id: None,
            }
        },
        None => compute_provenance(cs),
    }
}

} // verus!
