//! The Player.log state machine: feeds on `LocalPlayer: ProcessXxx(...)`
//! lines and produces structured, identity-resolved events.
//!
//! It tracks item instances (name and stack size per instance id), buffers
//! deletes until the next line says why the item left (storage, vendor,
//! unknown), keeps the activity contexts used to attribute gains, and holds
//! chat `[Status]` gains briefly so new stacks are seeded with the chat's
//! quantity.
//!
//! The whole behaviour is the spec function [`step`] over the parser's
//! view [`ParserV`]; `process_line` is proved to follow it.

use vstd::prelude::*;
use std::collections::HashMap;
use crate::text::{chars_of, contains, contains_str, eq_chars, strip_prefix, strip_prefix_str, string_of, trim, trim_ws};
use crate::log_fields::{after, hms_secs, line_timestamp, timestamp_to_secs, trimmed_u32, trimmed_u32_exec};
use crate::log_events::{
    add_effects_event, add_effects_ok, add_item_fields, add_item_fields_exec, add_to_storage_event, book_event,
    celestial_event, combat_mode_event, cut, cut_at, delay_loop_fields, delay_loop_fields_exec,
    delete_item_fields, delete_item_fields_exec, delta_favor_event, directed_goals_event,
    directed_goals_ok, effect_name_event, end_interaction_event, equipped_items_event, ev_opt,
    guild_event, line_ts, load_abilities_event, load_recipes_event, load_skills_event,
    parse_add_effects, parse_add_to_storage, parse_book, parse_celestial_info,
    parse_combat_mode_status, parse_complete_directed_goals, parse_delta_favor,
    parse_end_interaction, parse_guild_general_info, parse_load_abilities, parse_load_recipes,
    parse_load_skills, parse_player_mount, parse_remove_effects, parse_screen_text,
    parse_set_active_skills, parse_set_attributes, parse_set_equipped_items, parse_set_string,
    parse_set_weather, parse_start_interaction, parse_update_description, parse_update_effect_name,
    parse_update_recipe, parse_vendor_add_item, parse_vendor_update_gold, parse_vendor_update_item,
    player_mount_event, remove_effects_event, remove_storage_fields, remove_storage_fields_exec,
    rparen_ok, screen_text_event, set_active_skills_event, set_attributes_event, set_string_event,
    stack_of, start_interaction_event, type_of, update_description_event, update_item_fields,
    update_item_fields_exec, update_recipe_event, vendor_add_item_event, vendor_gold_event,
    vendor_update_item_event, weather_event, after_marker, decode_item_value, quoted,
};
use crate::player_events::{
    ActivityContext, ActivitySource, ContextV, DeleteContext, EventV, ItemProvenance, PlayerEvent,
    ProvV, SourceV, clone_ostr, contexts_view, events_view, ostr,
};
use crate::activity::{
    PendingInteractionMeta, PendingV, activity_source_matches, classify, classify_delay_loop,
    compute_provenance, compute_storage_provenance, copy_context, first_index, keep, live_at,
    not_for_entity, pending_view, provenance_of, retain_live, retain_not_entity, sources_match,
    storage_provenance,
};
use crate::decimal::{duration_secs, f32_literal};

verus! {

broadcast use vstd::std_specs::hash::group_hash_axioms;

// ============================================================
// Internal state
// ============================================================

/// What is known of an item instance.
pub struct InstanceInfo {
    pub item_name: String,
    pub item_type_id: Option<u16>,
}

impl InstanceInfo {
    pub open spec fn iv(self) -> (Seq<char>, Option<u16>) {
        (self.item_name@, self.item_type_id)
    }
}

/// A `ProcessDeleteItem` waiting for the next line to say why.
pub struct PendingDelete {
    pub timestamp: String,
    pub instance_id: u64,
    pub item_name: Option<String>,
}

/// View of a [`PendingDelete`]: timestamp, instance id, item name.
pub type DeleteV = (Seq<char>, u64, Option<Seq<char>>);

impl PendingDelete {
    pub open spec fn dv(self) -> DeleteV {
        (self.timestamp@, self.instance_id, ostr(self.item_name))
    }
}

/// The interaction opened by the last `ProcessStartInteraction`.
pub struct InteractionContext {
    pub entity_id: u32,
    pub npc_name: String,
    pub interaction_type: u32,
}

impl InteractionContext {
    pub open spec fn xv(self) -> (u32, Seq<char>, u32) {
        (self.entity_id, self.npc_name@, self.interaction_type)
    }
}

/// A recent chat `[Status] X added to inventory` gain, matched by internal
/// item name against the next `ProcessAddItem`.
pub struct PendingChatGain {
    pub item_internal_name: String,
    pub quantity: u32,
    pub captured_at_secs: u32,
}

/// View of a [`PendingChatGain`]: item name, quantity, capture second.
pub type GainV = (Seq<char>, u32, u32);

impl PendingChatGain {
    pub open spec fn gv(self) -> GainV {
        (self.item_internal_name@, self.quantity, self.captured_at_secs)
    }
}

pub open spec fn gains_view(v: Seq<PendingChatGain>) -> Seq<GainV> {
    v.map_values(|g: PendingChatGain| g.gv())
}

pub open spec fn deletes_view(v: Seq<PendingDelete>) -> Seq<DeleteV> {
    v.map_values(|d: PendingDelete| d.dv())
}

/// Seconds after a delay loop's duration before its context times out.
pub const DELAY_LOOP_SLACK_SECS: u32 = 2;

/// Lifetime of contexts without a duration of their own (corpse search,
/// vendor and storage browsing).
pub const DEFAULT_CONTEXT_LIFETIME_SECS: u32 = 30;

/// Window either side of a `ProcessAddItem` in which a chat gain matches.
pub const CHAT_GAIN_MATCH_WINDOW_SECS: u32 = 2;

/// Age after which an unmatched chat gain is discarded.
pub const CHAT_GAIN_BUFFER_LIFETIME_SECS: u32 = 10;

/// Age after which pending interaction metadata is discarded.
pub const PENDING_INTERACTION_LIFETIME_SECS: u32 = 5;

/// The mathematical state of a [`PlayerEventParser`].
#[verifier::ext_equal]
pub struct ParserV {
    /// Instance id → item name and item type id.
    pub registry: Map<u64, (Seq<char>, Option<u16>)>,
    /// Instance id → last known stack size.
    pub stacks: Map<u64, u32>,
    /// The current interaction: entity, NPC name, interaction type.
    pub interaction: Option<(u32, Seq<char>, u32)>,
    /// Deletes waiting for their context, oldest first.
    pub deletes: Seq<DeleteV>,
    /// Active activity contexts, most recent last.
    pub contexts: Seq<ContextV>,
    /// Metadata of the last interaction start, for enrichment.
    pub pending: Option<PendingV>,
    /// Chat gains waiting for an `AddItem`, oldest first.
    pub gains: Seq<GainV>,
}

impl ParserV {
    pub open spec fn initial() -> ParserV {
        ParserV {
            registry: Map::empty(),
            stacks: Map::empty(),
            interaction: None,
            deletes: Seq::empty(),
            contexts: Seq::empty(),
            pending: None,
            gains: Seq::empty(),
        }
    }
}

pub struct PlayerEventParser {
    instance_registry: HashMap<u64, InstanceInfo>,
    stack_sizes: HashMap<u64, u32>,
    current_interaction: Option<InteractionContext>,
    pending_deletes: Vec<PendingDelete>,
    /// Active contexts; most recently pushed last.
    activity_contexts: Vec<ActivityContext>,
    pending_interaction: Option<PendingInteractionMeta>,
    pending_chat_gains: Vec<PendingChatGain>,
}

impl View for PlayerEventParser {
    type V = ParserV;

    closed spec fn view(&self) -> ParserV {
        ParserV {
            registry: self.instance_registry@.map_values(|i: InstanceInfo| i.iv()),
            stacks: self.stack_sizes@,
            interaction: match self.current_interaction {
                Some(c) => Some(c.xv()),
                None => None,
            },
            deletes: deletes_view(self.pending_deletes@),
            contexts: contexts_view(self.activity_contexts@),
            pending: pending_view(self.pending_interaction),
            gains: gains_view(self.pending_chat_gains@),
        }
    }
}

// ============================================================
// The specification
// ============================================================

/// Seconds of day of a `HH:MM:SS` stamp.
pub open spec fn secs(ts: Seq<char>) -> u32 {
    hms_secs(ts) as u32
}

pub open spec fn sat_sub(a: u32, b: u32) -> u32 {
    if a >= b {
        (a - b) as u32
    } else {
        0
    }
}

/// The value of a `u32` read back as `i32` (two's complement).
pub open spec fn wrap_i32(x: u32) -> int {
    if x <= i32::MAX {
        x as int
    } else {
        x - 4294967296
    }
}

pub open spec fn opt_seq(o: Option<EventV>) -> Seq<EventV> {
    match o {
        Some(e) => seq![e],
        None => Seq::empty(),
    }
}

/// The chat gains younger than the buffer lifetime at `now`.
pub open spec fn keep_gains(gs: Seq<GainV>, now: u32) -> Seq<GainV>
    decreases gs.len(),
{
    if gs.len() == 0 {
        Seq::empty()
    } else {
        let rest = keep_gains(gs.drop_last(), now);
        if sat_sub(now, gs.last().2) <= CHAT_GAIN_BUFFER_LIFETIME_SECS {
            rest.push(gs.last())
        } else {
            rest
        }
    }
}

/// Drop the contexts past their deadline, interaction metadata older than
/// its lifetime, and chat gains older than theirs.
pub open spec fn expire(s: ParserV, now: u32) -> ParserV {
    ParserV {
        contexts: keep(s.contexts, live_at(now)),
        pending: match s.pending {
            Some(p) => if sat_sub(now, p.2) > PENDING_INTERACTION_LIFETIME_SECS {
                None
            } else {
                Some(p)
            },
            None => None,
        },
        gains: keep_gains(s.gains, now),
        ..s
    }
}

/// Expiry at the line's own timestamp, when it has one.
pub open spec fn expire_at(s: ParserV, line: Seq<char>) -> ParserV {
    match line_timestamp(line) {
        Some(ts) => expire(s, secs(ts)),
        None => s,
    }
}

/// The closest chat gain for `name` within the match window of `at`,
/// scanning from position `i` with the best so far; on ties the earlier
/// entry wins.
pub open spec fn best_gain(
    gs: Seq<GainV>,
    name: Seq<char>,
    at: u32,
    i: int,
    best: Option<int>,
    best_dist: int,
) -> Option<int>
    decreases gs.len() - i,
{
    if i < 0 || i >= gs.len() {
        best
    } else {
        let g = gs[i];
        let d = if g.2 >= at {
            g.2 - at
        } else {
            at - g.2
        };
        if g.0 == name && d <= CHAT_GAIN_MATCH_WINDOW_SECS && d < best_dist {
            best_gain(gs, name, at, i + 1, Some(i), d)
        } else {
            best_gain(gs, name, at, i + 1, best, best_dist)
        }
    }
}

/// Take the best-matching chat gain out of the buffer (the last entry
/// moves into its place): its quantity and the remaining buffer.
pub open spec fn consume_gain(gs: Seq<GainV>, name: Seq<char>, at: u32) -> Option<(u32, Seq<GainV>)> {
    match best_gain(gs, name, at, 0, None, u32::MAX as int) {
        Some(i) => Some((gs[i].1, gs.update(i, gs.last()).drop_last())),
        None => None,
    }
}

pub open spec fn flushed(s: ParserV) -> ParserV {
    ParserV { deletes: Seq::empty(), ..s }
}

pub open spec fn delete_event(d: DeleteV, context: DeleteContext) -> EventV {
    EventV::ItemDeleted { ts: d.0, instance_id: d.1, item_name: d.2, context }
}

/// Every buffered delete, with an unknown context.
pub open spec fn flush_events(ds: Seq<DeleteV>) -> Seq<EventV> {
    ds.map_values(|d: DeleteV| delete_event(d, DeleteContext::Unknown))
}

/// The buffered deletes resolved against an instance id: the one moved
/// gets `hit`, the others an unknown context.
pub open spec fn resolved_events(ds: Seq<DeleteV>, id: u64, hit: DeleteContext) -> Seq<EventV> {
    ds.map_values(
        |d: DeleteV|
            delete_event(
                d,
                if d.1 == id {
                    hit
                } else {
                    DeleteContext::Unknown
                },
            ),
    )
}

/// The NPC name of the current interaction, used as the vault key.
pub open spec fn vault_key(s: ParserV) -> Option<Seq<char>> {
    match s.interaction {
        Some((_, n, _)) => Some(n),
        None => None,
    }
}

/// A storage or vendor line right after buffered deletes says where they
/// went: the line is consumed and the deletes resolved.
pub open spec fn resolve(s: ParserV, line: Seq<char>) -> Option<(ParserV, Seq<EventV>)> {
    if s.deletes.len() == 0 {
        None
    } else if contains(line, "ProcessAddToStorageVault("@) && add_to_storage_event(
        line,
        vault_key(s),
    ) is Some {
        let ev = add_to_storage_event(line, vault_key(s))->0;
        Some(
            (
                flushed(s),
                resolved_events(s.deletes, ev->StorageDeposit_instance_id, DeleteContext::StorageTransfer)
                    + seq![ev],
            ),
        )
    } else if contains(line, "ProcessVendorAddItem("@) && vendor_add_item_event(line) is Some {
        let ev = vendor_add_item_event(line)->0;
        Some(
            (
                flushed(s),
                resolved_events(s.deletes, ev->VendorSold_instance_id, DeleteContext::VendorSale)
                    + seq![ev],
            ),
        )
    } else if contains(line, "ProcessVendorUpdateItem("@) && vendor_update_item_event(line) is Some {
        let ev = vendor_update_item_event(line)->0;
        Some(
            (
                flushed(s),
                s.deletes.map_values(|d: DeleteV| delete_event(d, DeleteContext::VendorSale))
                    + seq![ev],
            ),
        )
    } else {
        None
    }
}

/// The kinds of `LocalPlayer: Process...` lines, in the order they are
/// recognised.
#[derive(Clone, Copy, PartialEq, Eq, Structural, Debug)]
pub enum LineKind {
    AddItem,
    UpdateItemCode,
    DeleteItem,
    LoadSkills,
    StartInteraction,
    DeltaFavor,
    VendorAddItem,
    VendorUpdateItem,
    AddToStorage,
    RemoveFromStorage,
    DelayLoop,
    ScreenText,
    Book,
    EndInteraction,
    TalkScreen,
    VendorScreen,
    ShowStorageVault,
    SetActiveSkills,
    PlayerMount,
    SetWeather,
    UpdateRecipe,
    CombatMode,
    VendorGold,
    SetAttributes,
    LoadAbilities,
    LoadRecipes,
    SetEquippedItems,
    AddEffects,
    RemoveEffects,
    UpdateEffectName,
    UpdateDescription,
    CelestialInfo,
    GuildInfo,
    DirectedGoals,
    SetString,
    Other,
}

/// The first of the markers that the line contains, in recognition order.
pub open spec fn line_kind(l: Seq<char>) -> LineKind {
    if contains(l, "ProcessAddItem("@) {
        LineKind::AddItem
    } else if contains(l, "ProcessUpdateItemCode("@) {
        LineKind::UpdateItemCode
    } else if contains(l, "ProcessDeleteItem("@) {
        LineKind::DeleteItem
    } else if contains(l, "ProcessLoadSkills("@) {
        LineKind::LoadSkills
    } else if contains(l, "ProcessStartInteraction("@) {
        LineKind::StartInteraction
    } else if contains(l, "ProcessDeltaFavor("@) {
        LineKind::DeltaFavor
    } else if contains(l, "ProcessVendorAddItem("@) {
        LineKind::VendorAddItem
    } else if contains(l, "ProcessVendorUpdateItem("@) {
        LineKind::VendorUpdateItem
    } else if contains(l, "ProcessAddToStorageVault("@) {
        LineKind::AddToStorage
    } else if contains(l, "ProcessRemoveFromStorageVault("@) {
        LineKind::RemoveFromStorage
    } else if contains(l, "ProcessDoDelayLoop("@) {
        LineKind::DelayLoop
    } else if contains(l, "ProcessScreenText("@) {
        LineKind::ScreenText
    } else if contains(l, "ProcessBook("@) {
        LineKind::Book
    } else if contains(l, "ProcessEndInteraction("@) {
        LineKind::EndInteraction
    } else if contains(l, "ProcessTalkScreen("@) {
        LineKind::TalkScreen
    } else if contains(l, "ProcessVendorScreen("@) {
        LineKind::VendorScreen
    } else if contains(l, "ProcessShowStorageVault("@) {
        LineKind::ShowStorageVault
    } else if contains(l, "ProcessSetActiveSkills("@) {
        LineKind::SetActiveSkills
    } else if contains(l, "ProcessPlayerMount("@) {
        LineKind::PlayerMount
    } else if contains(l, "ProcessSetWeather("@) {
        LineKind::SetWeather
    } else if contains(l, "ProcessUpdateRecipe("@) {
        LineKind::UpdateRecipe
    } else if contains(l, "ProcessCombatModeStatus("@) {
        LineKind::CombatMode
    } else if contains(l, "ProcessVendorUpdateAvailableGold("@) {
        LineKind::VendorGold
    } else if contains(l, "ProcessSetAttributes("@) {
        LineKind::SetAttributes
    } else if contains(l, "ProcessLoadAbilities("@) {
        LineKind::LoadAbilities
    } else if contains(l, "ProcessLoadRecipes("@) {
        LineKind::LoadRecipes
    } else if contains(l, "ProcessSetEquippedItems("@) {
        LineKind::SetEquippedItems
    } else if contains(l, "ProcessAddEffects("@) {
        LineKind::AddEffects
    } else if contains(l, "ProcessRemoveEffects("@) {
        LineKind::RemoveEffects
    } else if contains(l, "ProcessUpdateEffectName("@) {
        LineKind::UpdateEffectName
    } else if contains(l, "ProcessUpdateDescription("@) {
        LineKind::UpdateDescription
    } else if contains(l, "ProcessSetCelestialInfo("@) {
        LineKind::CelestialInfo
    } else if contains(l, "ProcessGuildGeneralInfo("@) {
        LineKind::GuildInfo
    } else if contains(l, "ProcessCompleteDirectedGoals("@) {
        LineKind::DirectedGoals
    } else if contains(l, "ProcessSetString("@) {
        LineKind::SetString
    } else {
        LineKind::Other
    }
}

/// `ProcessAddItem`: register the instance; a genuinely new item
/// (`isNew` with slot -1) seeds its stack from a matching chat gain, else
/// from 1. Login loads (`isNew` false) are not gains.
pub open spec fn add_item_step(s: ParserV, line: Seq<char>) -> (ParserV, Option<EventV>) {
    match add_item_fields(line) {
        None => (s, None),
        Some((ts, name, inst, slot, is_new)) => {
            let s1 = ParserV { registry: s.registry.insert(inst, (name, None)), ..s };
            if is_new && slot < 0 {
                let (q, gs) = match consume_gain(s1.gains, name, secs(ts)) {
                    Some((q, gs)) => (q, gs),
                    None => (1u32, s1.gains),
                };
                let s2 = ParserV { stacks: s1.stacks.insert(inst, q), gains: gs, ..s1 };
                (
                    s2,
                    Some(
                        EventV::ItemAdded {
                            ts,
                            item_name: name,
                            instance_id: inst,
                            slot_index: slot,
                            is_new,
                            initial_quantity: q,
                            provenance: provenance_of(s2.contexts),
                        },
                    ),
                )
            } else {
                (
                    s1,
                    Some(
                        EventV::ItemAdded {
                            ts,
                            item_name: name,
                            instance_id: inst,
                            slot_index: slot,
                            is_new,
                            initial_quantity: 1,
                            provenance: if !is_new {
                                ProvV::NotApplicable
                            } else {
                                provenance_of(s1.contexts)
                            },
                        },
                    ),
                )
            }
        },
    }
}

pub open spec fn name_of(s: ParserV, inst: u64) -> Option<Seq<char>> {
    if s.registry.contains_key(inst) {
        Some(s.registry[inst].0)
    } else {
        None
    }
}

/// `ProcessUpdateItemCode`: record the new stack size (and the item's type
/// id). Without a prior stack size this only sets a baseline, unless a
/// matching chat gain says how much was gained; otherwise the change is
/// reported, attributed when it is a gain.
pub open spec fn update_item_step(s: ParserV, line: Seq<char>) -> (ParserV, Option<EventV>) {
    match update_item_fields(line) {
        None => (s, None),
        Some((ts, inst, enc, fs)) => {
            let new = stack_of(enc);
            let tid = type_of(enc);
            let had = s.stacks.contains_key(inst);
            let old = if had {
                s.stacks[inst]
            } else {
                0u32
            };
            let reg = if s.registry.contains_key(inst) {
                s.registry.insert(inst, (s.registry[inst].0, Some(tid)))
            } else {
                s.registry
            };
            let s1 = ParserV { stacks: s.stacks.insert(inst, new), registry: reg, ..s };
            let name = name_of(s, inst);
            if !had {
                match name {
                    Some(n) => match consume_gain(s1.gains, n, secs(ts)) {
                        Some((q, gs)) => (
                            ParserV { gains: gs, ..s1 },
                            Some(
                                EventV::ItemStackChanged {
                                    ts,
                                    instance_id: inst,
                                    item_name: name,
                                    item_type_id: tid,
                                    old_stack_size: sat_sub(new, q),
                                    new_stack_size: new,
                                    delta: wrap_i32(q) as i32,
                                    from_server: fs,
                                    provenance: provenance_of(s1.contexts),
                                },
                            ),
                        ),
                        None => (s1, None),
                    },
                    None => (s1, None),
                }
            } else {
                let delta = new - wrap_i32(old);
                (
                    s1,
                    Some(
                        EventV::ItemStackChanged {
                            ts,
                            instance_id: inst,
                            item_name: name,
                            item_type_id: tid,
                            old_stack_size: old,
                            new_stack_size: new,
                            delta: delta as i32,
                            from_server: fs,
                            provenance: if delta > 0 {
                                provenance_of(s1.contexts)
                            } else {
                                ProvV::NotApplicable
                            },
                        },
                    ),
                )
            }
        },
    }
}

/// The stack difference of an update fits in `i32`.
pub open spec fn update_ok(s: ParserV, line: Seq<char>) -> bool {
    match update_item_fields(line) {
        Some((_, inst, enc, _)) => s.stacks.contains_key(inst) ==> i32::MIN <= stack_of(enc)
            - wrap_i32(s.stacks[inst]) <= i32::MAX,
        None => true,
    }
}

/// `ProcessDeleteItem`: forget the instance and buffer the delete.
pub open spec fn delete_step(s: ParserV, line: Seq<char>) -> ParserV {
    match delete_item_fields(line) {
        None => s,
        Some((ts, inst)) => ParserV {
            registry: s.registry.remove(inst),
            stacks: s.stacks.remove(inst),
            deletes: s.deletes.push((ts, inst, name_of(s, inst))),
            ..s
        },
    }
}

/// `ProcessStartInteraction`: remember the interaction and its metadata.
pub open spec fn start_interaction_step(s: ParserV, line: Seq<char>) -> (ParserV, Option<EventV>) {
    match start_interaction_event(line) {
        Some(EventV::InteractionStarted { ts, entity_id, interaction_type, npc_name }) => (
            ParserV {
                interaction: Some((entity_id, npc_name, interaction_type)),
                pending: Some(
                    (
                        entity_id,
                        if npc_name.len() == 0 {
                            None
                        } else {
                            Some(npc_name)
                        },
                        secs(ts),
                    ),
                ),
                ..s
            },
            start_interaction_event(line),
        ),
        _ => (s, None),
    }
}

/// `ProcessRemoveFromStorageVault`: seed the stack from the vault's
/// quantity (unless already known) and attribute to storage browsing.
pub open spec fn remove_storage_step(s: ParserV, line: Seq<char>) -> (ParserV, Option<EventV>) {
    match remove_storage_fields(line) {
        None => (s, None),
        Some((ts, npc, inst, qty)) => (
            if s.stacks.contains_key(inst) {
                s
            } else {
                ParserV { stacks: s.stacks.insert(inst, qty), ..s }
            },
            Some(
                EventV::StorageWithdrawal {
                    ts,
                    npc_id: npc,
                    vault_key: vault_key(s),
                    instance_id: inst,
                    quantity: qty,
                    provenance: storage_provenance(s.contexts, npc),
                },
            ),
        ),
    }
}

/// The entity a new delay-loop context answers to: the mining node, or
/// the entity of the pending interaction.
pub open spec fn loop_entity(src: SourceV, pending: Option<PendingV>) -> Option<u32> {
    match src {
        SourceV::Mining { node, .. } => node,
        _ => match pending {
            Some(p) => Some(p.0),
            None => None,
        },
    }
}

/// `ProcessDoDelayLoop`: open (or extend) the activity it starts. The
/// deadline is the start second plus the duration rounded up plus the
/// slack.
pub open spec fn delay_loop_step(s: ParserV, line: Seq<char>) -> (ParserV, Option<EventV>) {
    match delay_loop_fields(line) {
        None => (s, None),
        Some((ts, d, at, label, entity_id, ab)) => {
            let started = secs(ts);
            let deadline = (started + duration_secs(d) + DELAY_LOOP_SLACK_SECS) as u32;
            let s1 = match classify(at, label, s.pending) {
                None => s,
                Some(src) => {
                    let ce = loop_entity(src, s.pending);
                    if s.contexts.len() > 0 && sources_match(s.contexts.last().source, src)
                        && s.contexts.last().entity_id == ce {
                        ParserV {
                            contexts: s.contexts.update(
                                s.contexts.len() - 1,
                                ContextV { close_deadline_secs: deadline, ..s.contexts.last() },
                            ),
                            ..s
                        }
                    } else {
                        ParserV {
                            contexts: s.contexts.push(
                                ContextV {
                                    source: src,
                                    started_at: ts,
                                    started_at_secs: started,
                                    close_deadline_secs: deadline,
                                    entity_id: ce,
                                },
                            ),
                            ..s
                        }
                    }
                },
            };
            (
                s1,
                Some(
                    EventV::DelayLoopStarted {
                        ts,
                        duration: d,
                        action_type: at,
                        label,
                        entity_id,
                        abort_condition: ab,
                    },
                ),
            )
        },
    }
}

/// The delay loop's deadline fits in `u32`.
pub open spec fn delay_ok(line: Seq<char>) -> bool {
    match delay_loop_fields(line) {
        Some((ts, d, _, _, _, _)) => secs(ts) + duration_secs(d) + DELAY_LOOP_SLACK_SECS
            <= u32::MAX,
        None => true,
    }
}

/// `ProcessEndInteraction`: clear the interaction and close the contexts
/// keyed to a non-negative entity.
pub open spec fn end_interaction_step(s: ParserV, line: Seq<char>) -> (ParserV, Option<EventV>) {
    match end_interaction_event(line) {
        Some(EventV::InteractionEnded { ts, entity_id }) => (
            ParserV {
                interaction: None,
                contexts: if entity_id >= 0 {
                    keep(s.contexts, not_for_entity(entity_id as u32))
                } else {
                    s.contexts
                },
                ..s
            },
            end_interaction_event(line),
        ),
        _ => (s, None),
    }
}

pub open spec fn corpse_of(e: u32) -> spec_fn(ContextV) -> bool {
    |c: ContextV| c.entity_id == Some(e) && c.source is CorpseSearch
}

/// `ProcessTalkScreen(entityId, "Search Corpse of X", ...)` opens a corpse
/// search (or refreshes the one for that entity); other talk screens
/// change nothing.
pub open spec fn talk_screen_step(s: ParserV, line: Seq<char>) -> ParserV {
    match (line_timestamp(line), after(line, "ProcessTalkScreen("@)) {
        (Some(ts), Some(args)) => match cut(args, ',') {
            Some((e, rest)) => match (trimmed_u32(e), cut(rest, '"')) {
                (Some(entity), Some((_, r2))) => match cut(r2, '"') {
                    Some((title, _)) => match strip_prefix(title, "Search Corpse of "@) {
                        Some(corpse) => {
                            let started = secs(ts);
                            let deadline = (started + DEFAULT_CONTEXT_LIFETIME_SECS) as u32;
                            match first_index(s.contexts, corpse_of(entity)) {
                                Some(i) => ParserV {
                                    contexts: s.contexts.update(
                                        i,
                                        ContextV { close_deadline_secs: deadline, ..s.contexts[i] },
                                    ),
                                    ..s
                                },
                                None => ParserV {
                                    contexts: s.contexts.push(
                                        ContextV {
                                            source: SourceV::CorpseSearch {
                                                entity,
                                                corpse: trim(corpse),
                                            },
                                            started_at: ts,
                                            started_at_secs: started,
                                            close_deadline_secs: deadline,
                                            entity_id: Some(entity),
                                        },
                                    ),
                                    ..s
                                },
                            }
                        },
                        None => s,
                    },
                    None => s,
                },
                _ => s,
            },
            None => s,
        },
        _ => s,
    }
}

/// `ProcessVendorScreen(npcId, ...)` opens vendor browsing, named from the
/// pending interaction with the same entity.
pub open spec fn vendor_screen_step(s: ParserV, line: Seq<char>) -> ParserV {
    match (line_timestamp(line), after(line, "ProcessVendorScreen("@)) {
        (Some(ts), Some(args)) => match cut(args, ',') {
            Some((e, _)) => match trimmed_u32(e) {
                Some(npc) => {
                    let started = secs(ts);
                    let name = match s.pending {
                        Some((pe, pn, _)) => if pe == npc {
                            pn
                        } else {
                            None
                        },
                        None => None,
                    };
                    ParserV {
                        contexts: s.contexts.push(
                            ContextV {
                                source: SourceV::VendorBrowsing { npc, name },
                                started_at: ts,
                                started_at_secs: started,
                                close_deadline_secs: (started + DEFAULT_CONTEXT_LIFETIME_SECS) as u32,
                                entity_id: Some(npc),
                            },
                        ),
                        ..s
                    }
                },
                None => s,
            },
            None => s,
        },
        _ => s,
    }
}

/// The first quoted string, or empty when there is none.
pub open spec fn first_quoted_or_empty(rest: Seq<char>) -> Seq<char> {
    match cut(rest, '"') {
        Some((_, r2)) => match cut(r2, '"') {
            Some((v, _)) => v,
            None => Seq::empty(),
        },
        None => Seq::empty(),
    }
}

/// `ProcessShowStorageVault(ownerId, _, "vault name", ...)` opens storage
/// browsing.
pub open spec fn storage_vault_step(s: ParserV, line: Seq<char>) -> ParserV {
    match (line_timestamp(line), after(line, "ProcessShowStorageVault("@)) {
        (Some(ts), Some(args)) => match cut(args, ',') {
            Some((e, rest)) => match trimmed_u32(e) {
                Some(owner) => {
                    let started = secs(ts);
                    ParserV {
                        contexts: s.contexts.push(
                            ContextV {
                                source: SourceV::StorageBrowsing {
                                    owner,
                                    vault: first_quoted_or_empty(rest),
                                },
                                started_at: ts,
                                started_at_secs: started,
                                close_deadline_secs: (started + DEFAULT_CONTEXT_LIFETIME_SECS) as u32,
                                entity_id: Some(owner),
                            },
                        ),
                        ..s
                    }
                },
                None => s,
            },
            None => s,
        },
        _ => s,
    }
}

/// One recognised line kind, after the buffered deletes were flushed.
pub open spec fn branch(s: ParserV, line: Seq<char>, kind: LineKind) -> (ParserV, Option<EventV>) {
    match kind {
        LineKind::AddItem => add_item_step(s, line),
        LineKind::UpdateItemCode => update_item_step(s, line),
        LineKind::LoadSkills => (s, load_skills_event(line)),
        LineKind::StartInteraction => start_interaction_step(s, line),
        LineKind::DeltaFavor => (s, delta_favor_event(line)),
        LineKind::VendorAddItem => (s, vendor_add_item_event(line)),
        LineKind::VendorUpdateItem => (s, vendor_update_item_event(line)),
        LineKind::AddToStorage => (s, add_to_storage_event(line, vault_key(s))),
        LineKind::RemoveFromStorage => remove_storage_step(s, line),
        LineKind::DelayLoop => delay_loop_step(s, line),
        LineKind::ScreenText => (s, screen_text_event(line)),
        LineKind::Book => (s, book_event(line)),
        LineKind::EndInteraction => end_interaction_step(s, line),
        LineKind::TalkScreen => (talk_screen_step(s, line), None),
        LineKind::VendorScreen => (vendor_screen_step(s, line), None),
        LineKind::ShowStorageVault => (storage_vault_step(s, line), None),
        LineKind::SetActiveSkills => (s, set_active_skills_event(line)),
        LineKind::PlayerMount => (s, player_mount_event(line)),
        LineKind::SetWeather => (s, weather_event(line)),
        LineKind::UpdateRecipe => (s, update_recipe_event(line)),
        LineKind::CombatMode => (s, combat_mode_event(line)),
        LineKind::VendorGold => (s, vendor_gold_event(line)),
        LineKind::SetAttributes => (s, set_attributes_event(line)),
        LineKind::LoadAbilities => (s, load_abilities_event(line)),
        LineKind::LoadRecipes => (s, load_recipes_event(line)),
        LineKind::SetEquippedItems => (s, equipped_items_event(line)),
        LineKind::AddEffects => (s, add_effects_event(line)),
        LineKind::RemoveEffects => (s, remove_effects_event(line)),
        LineKind::UpdateEffectName => (s, effect_name_event(line)),
        LineKind::UpdateDescription => (s, update_description_event(line)),
        LineKind::CelestialInfo => (s, celestial_event(line)),
        LineKind::GuildInfo => (s, guild_event(line)),
        LineKind::DirectedGoals => (s, directed_goals_event(line)),
        LineKind::SetString => (s, set_string_event(line)),
        _ => (s, None),
    }
}

/// A recognised `LocalPlayer: Process` line: a delete is buffered; any
/// other line first flushes the buffered deletes as unknown.
pub open spec fn dispatch(s: ParserV, line: Seq<char>) -> (ParserV, Seq<EventV>) {
    if line_kind(line) == LineKind::DeleteItem {
        (delete_step(s, line), Seq::empty())
    } else {
        let (s2, e) = branch(flushed(s), line, line_kind(line));
        (s2, flush_events(s.deletes) + opt_seq(e))
    }
}

/// One log line: expire at its timestamp, let buffered deletes resolve
/// against it, then handle it by kind. Lines that are not `LocalPlayer:
/// Process` events only flush the buffered deletes.
pub open spec fn step(s: ParserV, line: Seq<char>) -> (ParserV, Seq<EventV>) {
    let s1 = expire_at(s, line);
    match resolve(s1, line) {
        Some(r) => r,
        None => if !contains(line, "LocalPlayer: Process"@) {
            (flushed(s1), flush_events(s1.deletes))
        } else {
            dispatch(s1, line)
        },
    }
}

/// The lines on which handling does not fail: argument slices in bounds,
/// no `i32` overflow in a stack difference, no `u32` overflow in a deadline.
pub open spec fn step_ok(s: ParserV, line: Seq<char>) -> bool {
    let s1 = expire_at(s, line);
    resolve(s1, line) is Some || !contains(line, "LocalPlayer: Process"@) || match line_kind(line) {
        LineKind::UpdateItemCode => update_ok(flushed(s1), line),
        LineKind::StartInteraction => rparen_ok(line, "ProcessStartInteraction("@),
        LineKind::DeltaFavor => rparen_ok(line, "ProcessDeltaFavor("@),
        LineKind::LoadAbilities => rparen_ok(line, "ProcessLoadAbilities("@),
        LineKind::DelayLoop => delay_ok(line),
        LineKind::AddEffects => add_effects_ok(line),
        LineKind::DirectedGoals => directed_goals_ok(line),
        _ => true,
    }
}

/// Feeding a chat gain: drop gains older than the buffer lifetime at its
/// second, then append it.
pub open spec fn gain_step(s: ParserV, name: Seq<char>, quantity: u32, hms: Seq<char>) -> ParserV {
    let c = secs(hms);
    ParserV { gains: keep_gains(s.gains, c).push((name, quantity, c)), ..s }
}


/// What a recognised line kind needs so that handling it does not fail.
pub open spec fn branch_ok(s: ParserV, line: Seq<char>, kind: LineKind) -> bool {
    match kind {
        LineKind::UpdateItemCode => update_ok(s, line),
        LineKind::StartInteraction => rparen_ok(line, "ProcessStartInteraction("@),
        LineKind::DeltaFavor => rparen_ok(line, "ProcessDeltaFavor("@),
        LineKind::LoadAbilities => rparen_ok(line, "ProcessLoadAbilities("@),
        LineKind::DelayLoop => delay_ok(line),
        LineKind::AddEffects => add_effects_ok(line),
        LineKind::DirectedGoals => directed_goals_ok(line),
        _ => true,
    }
}

/// Recognise the kind of a `LocalPlayer: Process` line.
pub fn classify_line(l: &[char]) -> (k: LineKind)
    ensures
        k == line_kind(l@),
{
    if contains_str(l, "ProcessAddItem(") {
        LineKind::AddItem
    } else if contains_str(l, "ProcessUpdateItemCode(") {
        LineKind::UpdateItemCode
    } else if contains_str(l, "ProcessDeleteItem(") {
        LineKind::DeleteItem
    } else if contains_str(l, "ProcessLoadSkills(") {
        LineKind::LoadSkills
    } else if contains_str(l, "ProcessStartInteraction(") {
        LineKind::StartInteraction
    } else if contains_str(l, "ProcessDeltaFavor(") {
        LineKind::DeltaFavor
    } else if contains_str(l, "ProcessVendorAddItem(") {
        LineKind::VendorAddItem
    } else if contains_str(l, "ProcessVendorUpdateItem(") {
        LineKind::VendorUpdateItem
    } else if contains_str(l, "ProcessAddToStorageVault(") {
        LineKind::AddToStorage
    } else if contains_str(l, "ProcessRemoveFromStorageVault(") {
        LineKind::RemoveFromStorage
    } else if contains_str(l, "ProcessDoDelayLoop(") {
        LineKind::DelayLoop
    } else if contains_str(l, "ProcessScreenText(") {
        LineKind::ScreenText
    } else if contains_str(l, "ProcessBook(") {
        LineKind::Book
    } else if contains_str(l, "ProcessEndInteraction(") {
        LineKind::EndInteraction
    } else if contains_str(l, "ProcessTalkScreen(") {
        LineKind::TalkScreen
    } else if contains_str(l, "ProcessVendorScreen(") {
        LineKind::VendorScreen
    } else if contains_str(l, "ProcessShowStorageVault(") {
        LineKind::ShowStorageVault
    } else if contains_str(l, "ProcessSetActiveSkills(") {
        LineKind::SetActiveSkills
    } else if contains_str(l, "ProcessPlayerMount(") {
        LineKind::PlayerMount
    } else if contains_str(l, "ProcessSetWeather(") {
        LineKind::SetWeather
    } else if contains_str(l, "ProcessUpdateRecipe(") {
        LineKind::UpdateRecipe
    } else if contains_str(l, "ProcessCombatModeStatus(") {
        LineKind::CombatMode
    } else if contains_str(l, "ProcessVendorUpdateAvailableGold(") {
        LineKind::VendorGold
    } else if contains_str(l, "ProcessSetAttributes(") {
        LineKind::SetAttributes
    } else if contains_str(l, "ProcessLoadAbilities(") {
        LineKind::LoadAbilities
    } else if contains_str(l, "ProcessLoadRecipes(") {
        LineKind::LoadRecipes
    } else if contains_str(l, "ProcessSetEquippedItems(") {
        LineKind::SetEquippedItems
    } else if contains_str(l, "ProcessAddEffects(") {
        LineKind::AddEffects
    } else if contains_str(l, "ProcessRemoveEffects(") {
        LineKind::RemoveEffects
    } else if contains_str(l, "ProcessUpdateEffectName(") {
        LineKind::UpdateEffectName
    } else if contains_str(l, "ProcessUpdateDescription(") {
        LineKind::UpdateDescription
    } else if contains_str(l, "ProcessSetCelestialInfo(") {
        LineKind::CelestialInfo
    } else if contains_str(l, "ProcessGuildGeneralInfo(") {
        LineKind::GuildInfo
    } else if contains_str(l, "ProcessCompleteDirectedGoals(") {
        LineKind::DirectedGoals
    } else if contains_str(l, "ProcessSetString(") {
        LineKind::SetString
    } else {
        LineKind::Other
    }
}

/// The context a delete gets: `hit` for the matching instance (for all
/// of them when no instance is given), unknown otherwise.
pub open spec fn delete_context(inst: u64, id: Option<u64>, hit: DeleteContext) -> DeleteContext {
    match id {
        Some(i) => if inst == i {
            hit
        } else {
            DeleteContext::Unknown
        },
        None => hit,
    }
}

fn push_opt(events: &mut Vec<PlayerEvent>, e: Option<PlayerEvent>)
    ensures
        events_view(final(events)@) == events_view(old(events)@) + opt_seq(ev_opt(e)),
{
    match e {
        Some(ev) => {
            let ghost before = events@;
            events.push(ev);
            assert(events_view(events@) =~= events_view(before) + opt_seq(ev_opt(e)));
        },
        None => {
            assert(events_view(events@) =~= events_view(events@) + opt_seq(ev_opt(e)));
        },
    }
}

fn eq_name(a: &String, b: &[char]) -> (r: bool)
    ensures
        r == (a@ == b@),
{
    let x = chars_of(a.as_str());
    eq_chars(x.as_slice(), b)
}

fn retain_recent_gains(gs: &Vec<PendingChatGain>, now: u32) -> (r: Vec<PendingChatGain>)
    ensures
        gains_view(r@) == keep_gains(gains_view(gs@), now),
{
    let mut out: Vec<PendingChatGain> = Vec::new();
    let mut i: usize = 0;
    while i < gs.len()
        invariant
            i <= gs@.len(),
            gains_view(out@) == keep_gains(gains_view(gs@).take(i as int), now),
        decreases gs.len() - i,
    {
        proof {
            let t = gains_view(gs@).take(i + 1);
            assert(t.drop_last() =~= gains_view(gs@).take(i as int));
            assert(t.last() == gs@[i as int].gv());
        }
        let g = &gs[i];
        let age = if now >= g.captured_at_secs {
            now - g.captured_at_secs
        } else {
            0
        };
        if age <= CHAT_GAIN_BUFFER_LIFETIME_SECS {
            let ghost before = out@;
            out.push(
                PendingChatGain {
                    item_internal_name: g.item_internal_name.clone(),
                    quantity: g.quantity,
                    captured_at_secs: g.captured_at_secs,
                },
            );
            assert(gains_view(out@) =~= gains_view(before).push(gs@[i as int].gv()));
        }
        i += 1;
    }
    assert(gains_view(gs@).take(gs@.len() as int) =~= gains_view(gs@));
    out
}

fn find_corpse(cs: &Vec<ActivityContext>, e: u32) -> (r: Option<usize>)
    ensures
        match r {
            Some(i) => first_index(contexts_view(cs@), corpse_of(e)) == Some(i as int),
            None => first_index(contexts_view(cs@), corpse_of(e)) is None,
        },
{
    let ghost p = corpse_of(e);
    let mut i: usize = 0;
    while i < cs.len()
        invariant
            i <= cs@.len(),
            p == corpse_of(e),
            forall|j: int| 0 <= j < i ==> !p(#[trigger] cs@[j].cv()),
        decreases cs.len() - i,
    {
        let hit = match (&cs[i].source, cs[i].entity_id) {
            (ActivitySource::CorpseSearch { .. }, Some(x)) => x == e,
            _ => false,
        };
        assert(hit == p(cs@[i as int].cv()));
        if hit {
            proof {
                let v = contexts_view(cs@);
                crate::activity::lemma_first_index(v, p);
                assert(v[i as int] == cs@[i as int].cv());
                match first_index(v, p) {
                    Some(k) => {
                        assert(v[k] == cs@[k].cv());
                        if k < i {
                            assert(!p(cs@[k].cv()));
                        }
                    },
                    None => {},
                }
            }
            return Some(i);
        }
        i += 1;
    }
    proof {
        let v = contexts_view(cs@);
        crate::activity::lemma_first_index(v, p);
        if let Some(k) = first_index(v, p) {
            assert(v[k] == cs@[k].cv());
        }
    }
    None
}

fn ts_secs(ts: &Vec<char>, line: &[char]) -> (r: u32)
    requires
        line_timestamp(line@) == Some(ts@),
    ensures
        r == secs(ts@),
        r < 400000,
{
    proof {
        crate::log_fields::lemma_line_timestamp_secs(line@);
    }
    timestamp_to_secs(ts.as_slice())
}

impl PlayerEventParser {
    pub fn new() -> (r: Self)
        ensures
            r@ == ParserV::initial(),
    {
        let r = PlayerEventParser {
            instance_registry: HashMap::new(),
            stack_sizes: HashMap::new(),
            current_interaction: None,
            pending_deletes: Vec::new(),
            activity_contexts: Vec::new(),
            pending_interaction: None,
            pending_chat_gains: Vec::new(),
        };
        assert(r@ =~= ParserV::initial());
        r
    }

    /// Feed a chat `[Status] X added to inventory` gain, with the item's
    /// internal name and a `HH:MM:SS` timestamp aligned with Player.log.
    pub fn feed_chat_gain(&mut self, item_internal_name: String, quantity: u32, timestamp_hms: &str)
        requires
            hms_secs(timestamp_hms@) <= u32::MAX,
        ensures
            final(self)@ == gain_step(old(self)@, item_internal_name@, quantity, timestamp_hms@),
    {
        let hms = chars_of(timestamp_hms);
        let captured_at_secs = timestamp_to_secs(hms.as_slice());
        let kept = retain_recent_gains(&self.pending_chat_gains, captured_at_secs);
        self.pending_chat_gains = kept;
        let ghost before = self.pending_chat_gains@;
        self.pending_chat_gains.push(
            PendingChatGain { item_internal_name, quantity, captured_at_secs },
        );
        assert(gains_view(self.pending_chat_gains@) =~= gains_view(before).push(
            (item_internal_name@, quantity, captured_at_secs),
        ));
        assert(self@ =~= gain_step(old(self)@, item_internal_name@, quantity, timestamp_hms@));
    }

    /// Take the closest matching chat gain out of the buffer; its quantity.
    fn consume_chat_gain_for_add_item(&mut self, name: &[char], at: u32) -> (r: Option<u32>)
        ensures
            match consume_gain(old(self)@.gains, name@, at) {
                Some((q, gs)) => r == Some(q) && final(self)@ == (ParserV { gains: gs, ..old(self)@ }),
                None => r is None && final(self)@ == old(self)@,
            },
    {
        let ghost gs = gains_view(self.pending_chat_gains@);
        let mut best: Option<usize> = None;
        let mut best_dist: u32 = u32::MAX;
        let mut i: usize = 0;
        while i < self.pending_chat_gains.len()
            invariant
                i <= self.pending_chat_gains@.len(),
                gs == gains_view(self.pending_chat_gains@),
                best_gain(gs, name@, at, 0, None, u32::MAX as int) == best_gain(
                    gs,
                    name@,
                    at,
                    i as int,
                    match best {
                        Some(b) => Some(b as int),
                        None => None,
                    },
                    best_dist as int,
                ),
                match best {
                    Some(b) => b < i,
                    None => true,
                },
            decreases self.pending_chat_gains.len() - i,
        {
            let g = &self.pending_chat_gains[i];
            assert(gs[i as int] == g.gv());
            let dist = if g.captured_at_secs >= at {
                g.captured_at_secs - at
            } else {
                at - g.captured_at_secs
            };
            if eq_name(&g.item_internal_name, name) && dist <= CHAT_GAIN_MATCH_WINDOW_SECS && dist
                < best_dist {
                best = Some(i);
                best_dist = dist;
            }
            i += 1;
        }
        match best {
            Some(b) => {
                let ghost old_v = self.pending_chat_gains@;
                let g = self.pending_chat_gains.swap_remove(b);
                assert(gs[b as int] == g.gv());
                assert(gains_view(self.pending_chat_gains@) =~= gs.update(b as int, gs.last()).drop_last());
                assert(self@ =~= (ParserV { gains: gs.update(b as int, gs.last()).drop_last(), ..old(self)@ }));
                Some(g.quantity)
            },
            None => None,
        }
    }

    /// The last known stack size of an instance.
    pub fn stack_size(&self, instance_id: u64) -> (r: Option<u32>)
        ensures
            r == if self@.stacks.contains_key(instance_id) {
                Some(self@.stacks[instance_id])
            } else {
                None::<u32>
            },
    {
        match self.stack_sizes.get(&instance_id) {
            Some(v) => Some(*v),
            None => None,
        }
    }

    /// Record a known stack size for an instance (as a prior observation
    /// would have).
    pub fn seed_stack_size(&mut self, instance_id: u64, size: u32)
        ensures
            final(self)@ == (ParserV { stacks: old(self)@.stacks.insert(instance_id, size), ..old(self)@ }),
    {
        self.stack_sizes.insert(instance_id, size);
        assert(self@ =~= (ParserV { stacks: old(self)@.stacks.insert(instance_id, size), ..old(self)@ }));
    }

    /// Whether an interaction is open.
    pub fn has_interaction(&self) -> (r: bool)
        ensures
            r == self@.interaction is Some,
    {
        self.current_interaction.is_some()
    }

    /// Currently active contexts, most recent last.
    pub fn active_activities(&self) -> (r: &[ActivityContext])
        ensures
            contexts_view(r@) == self@.contexts,
    {
        self.activity_contexts.as_slice()
    }

    /// Expire contexts, interaction metadata and chat gains at `now_secs`.
    fn expire_stale_activities(&mut self, now_secs: u32)
        ensures
            final(self)@ == expire(old(self)@, now_secs),
            final(self)@.contexts == old(self)@.contexts.filter(
                |c: ContextV| now_secs < c.close_deadline_secs,
            ),
            final(self)@.gains == old(self)@.gains.filter(
                |g: GainV| sat_sub(now_secs, g.2) <= CHAT_GAIN_BUFFER_LIFETIME_SECS,
            ),
    {
        proof {
            crate::parser_laws::law_expiry_filters(old(self)@, now_secs);
        }
        let live = retain_live(&self.activity_contexts, now_secs);
        self.activity_contexts = live;
        let drop_pending = match &self.pending_interaction {
            Some(pi) => {
                let age = if now_secs >= pi.captured_at_secs {
                    now_secs - pi.captured_at_secs
                } else {
                    0
                };
                age > PENDING_INTERACTION_LIFETIME_SECS
            },
            None => false,
        };
        if drop_pending {
            self.pending_interaction = None;
        }
        let kept = retain_recent_gains(&self.pending_chat_gains, now_secs);
        self.pending_chat_gains = kept;
        assert(self@ =~= expire(old(self)@, now_secs));
    }

    fn push_deletes(&self, id: Option<u64>, hit: DeleteContext, events: &mut Vec<PlayerEvent>)
        ensures
            events_view(final(events)@) == events_view(old(events)@) + self@.deletes.map_values(
                |d: DeleteV| delete_event(d, delete_context(d.1, id, hit)),
            ),
    {
        let ghost start = events_view(events@);
        let ghost ds = self@.deletes;
        let mut i: usize = 0;
        while i < self.pending_deletes.len()
            invariant
                i <= self.pending_deletes@.len(),
                ds == deletes_view(self.pending_deletes@),
                events_view(events@) == start + ds.take(i as int).map_values(
                    |d: DeleteV| delete_event(d, delete_context(d.1, id, hit)),
                ),
            decreases self.pending_deletes.len() - i,
        {
            let pd = &self.pending_deletes[i];
            let context = match id {
                Some(x) => if pd.instance_id == x {
                    hit
                } else {
                    DeleteContext::Unknown
                },
                None => hit,
            };
            let ghost before = events@;
            events.push(
                PlayerEvent::ItemDeleted {
                    timestamp: pd.timestamp.clone(),
                    instance_id: pd.instance_id,
                    item_name: clone_ostr(&pd.item_name),
                    context,
                },
            );
            assert(ds[i as int] == pd.dv());
            assert(ds.take(i + 1) =~= ds.take(i as int).push(ds[i as int]));
            assert(events_view(events@) =~= events_view(before).push(
                delete_event(ds[i as int], delete_context(ds[i as int].1, id, hit)),
            ));
            assert(ds.take(i + 1).map_values(
                |d: DeleteV| delete_event(d, delete_context(d.1, id, hit)),
            ) =~= ds.take(i as int).map_values(
                |d: DeleteV| delete_event(d, delete_context(d.1, id, hit)),
            ).push(delete_event(ds[i as int], delete_context(ds[i as int].1, id, hit))));
            i += 1;
        }
        assert(ds.take(ds.len() as int) =~= ds);
    }

    /// Emit every buffered delete with an unknown context.
    fn flush_pending_deletes(&mut self, events: &mut Vec<PlayerEvent>)
        ensures
            final(self)@ == flushed(old(self)@),
            events_view(final(events)@) == events_view(old(events)@) + flush_events(old(self)@.deletes),
    {
        self.push_deletes(None, DeleteContext::Unknown, events);
        assert(self@.deletes.map_values(
            |d: DeleteV| delete_event(d, delete_context(d.1, None, DeleteContext::Unknown)),
        ) =~= flush_events(self@.deletes));
        self.pending_deletes = Vec::new();
        assert(self@ =~= flushed(old(self)@));
    }

    /// Flush buffered deletes at the end of a batch of lines.
    pub fn flush_all_pending(&mut self) -> (r: Vec<PlayerEvent>)
        ensures
            final(self)@ == flushed(old(self)@),
            events_view(r@) == flush_events(old(self)@.deletes),
    {
        let mut events = Vec::new();
        self.flush_pending_deletes(&mut events);
        assert(events_view(Seq::<PlayerEvent>::empty()) =~= Seq::<EventV>::empty());
        assert(Seq::<EventV>::empty() + flush_events(old(self)@.deletes) =~= flush_events(
            old(self)@.deletes,
        ));
        events
    }

    fn current_vault_key(&self) -> (r: Option<String>)
        ensures
            ostr(r) == vault_key(self@),
    {
        match &self.current_interaction {
            Some(c) => Some(c.npc_name.clone()),
            None => None,
        }
    }

    /// Resolve buffered deletes against a storage or vendor line; whether
    /// the line was consumed.
    fn resolve_pending_deletes(&mut self, line: &[char], events: &mut Vec<PlayerEvent>) -> (r: bool)
        ensures
            match resolve(old(self)@, line@) {
                Some((s2, evs)) => r && final(self)@ == s2 && events_view(final(events)@)
                    == events_view(old(events)@) + evs,
                None => !r && final(self)@ == old(self)@ && final(events)@ == old(events)@,
            },
    {
        if self.pending_deletes.len() == 0 {
            return false;
        }
        if contains_str(line, "ProcessAddToStorageVault(") {
            let vk = self.current_vault_key();
            if let Some(ev) = parse_add_to_storage(line, vk) {
                let id = match &ev {
                    PlayerEvent::StorageDeposit { instance_id, .. } => *instance_id,
                    _ => 0,
                };
                self.push_deletes(Some(id), DeleteContext::StorageTransfer, events);
                self.pending_deletes = Vec::new();
                let ghost before = events@;
                events.push(ev);
                proof {
                    let ds = old(self)@.deletes;
                    assert(ds.map_values(
                        |d: DeleteV|
                            delete_event(d, delete_context(d.1, Some(id), DeleteContext::StorageTransfer)),
                    ) =~= resolved_events(ds, id, DeleteContext::StorageTransfer));
                    assert(events_view(events@) =~= events_view(before).push(ev.ev()));
                }
                assert(self@ =~= flushed(old(self)@));
                return true;
            }
        }
        if contains_str(line, "ProcessVendorAddItem(") {
            if let Some(ev) = parse_vendor_add_item(line) {
                let id = match &ev {
                    PlayerEvent::VendorSold { instance_id, .. } => *instance_id,
                    _ => 0,
                };
                self.push_deletes(Some(id), DeleteContext::VendorSale, events);
                self.pending_deletes = Vec::new();
                let ghost before = events@;
                events.push(ev);
                proof {
                    let ds = old(self)@.deletes;
                    assert(ds.map_values(
                        |d: DeleteV|
                            delete_event(d, delete_context(d.1, Some(id), DeleteContext::VendorSale)),
                    ) =~= resolved_events(ds, id, DeleteContext::VendorSale));
                    assert(events_view(events@) =~= events_view(before).push(ev.ev()));
                }
                assert(self@ =~= flushed(old(self)@));
                return true;
            }
        }
        if contains_str(line, "ProcessVendorUpdateItem(") {
            if let Some(ev) = parse_vendor_update_item(line) {
                self.push_deletes(None, DeleteContext::VendorSale, events);
                self.pending_deletes = Vec::new();
                let ghost before = events@;
                events.push(ev);
                proof {
                    let ds = old(self)@.deletes;
                    assert(ds.map_values(
                        |d: DeleteV| delete_event(d, delete_context(d.1, None, DeleteContext::VendorSale)),
                    ) =~= ds.map_values(|d: DeleteV| delete_event(d, DeleteContext::VendorSale)));
                    assert(events_view(events@) =~= events_view(before).push(ev.ev()));
                }
                assert(self@ =~= flushed(old(self)@));
                return true;
            }
        }
        false
    }

    fn registry_name(&self, inst: u64) -> (r: Option<String>)
        ensures
            ostr(r) == name_of(self@, inst),
    {
        match self.instance_registry.get(&inst) {
            Some(info) => Some(info.item_name.clone()),
            None => None,
        }
    }

    /// `ProcessAddItem(InternalName(instanceId), slotIndex, isNew)`.
    fn parse_add_item(&mut self, line: &[char]) -> (r: Option<PlayerEvent>)
        ensures
            final(self)@ == add_item_step(old(self)@, line@).0,
            ev_opt(r) == add_item_step(old(self)@, line@).1,
    {
        let (ts, name, inst, slot, is_new) = add_item_fields_exec(line)?;
        let item_name = string_of(name.as_slice());
        self.instance_registry.insert(
            inst,
            InstanceInfo { item_name: item_name.clone(), item_type_id: None },
        );
        let ghost s1 = ParserV { registry: old(self)@.registry.insert(inst, (name@, None)), ..old(self)@ };
        assert(self@ =~= s1);
        let initial_quantity = if is_new && slot < 0 {
            let at = ts_secs(&ts, line);
            let q = match self.consume_chat_gain_for_add_item(name.as_slice(), at) {
                Some(q) => q,
                None => 1,
            };
            self.stack_sizes.insert(inst, q);
            q
        } else {
            1
        };
        let provenance = if !is_new {
            ItemProvenance::NotApplicable
        } else {
            compute_provenance(&self.activity_contexts)
        };
        proof {
            if is_new && slot < 0 {
                let (q, gs) = match consume_gain(s1.gains, name@, secs(ts@)) {
                    Some((q, gs)) => (q, gs),
                    None => (1u32, s1.gains),
                };
                assert(self@ =~= (ParserV { stacks: s1.stacks.insert(inst, q), gains: gs, ..s1 }));
            }
        }
        Some(
            PlayerEvent::ItemAdded {
                timestamp: string_of(ts.as_slice()),
                item_name,
                instance_id: inst,
                slot_index: slot,
                is_new,
                initial_quantity,
                provenance,
            },
        )
    }

    /// `ProcessUpdateItemCode(instanceId, encodedValue, fromServer)`.
    fn parse_update_item_code(&mut self, line: &[char]) -> (r: Option<PlayerEvent>)
        requires
            update_ok(old(self)@, line@),
        ensures
            final(self)@ == update_item_step(old(self)@, line@).0,
            ev_opt(r) == update_item_step(old(self)@, line@).1,
    {
        let (ts, inst, enc, from_server) = update_item_fields_exec(line)?;
        let (new_stack_size, item_type_id) = decode_item_value(enc);
        let had_prior = self.stack_sizes.contains_key(&inst);
        let old_stack_size: u32 = match self.stack_sizes.get(&inst) {
            Some(v) => *v,
            None => 0,
        };
        let ghost s0 = old(self)@;
        let item_name = self.registry_name(inst);
        self.stack_sizes.insert(inst, new_stack_size);
        match self.instance_registry.get(&inst) {
            Some(info) => {
                let n = info.item_name.clone();
                self.instance_registry.insert(
                    inst,
                    InstanceInfo { item_name: n, item_type_id: Some(item_type_id) },
                );
            },
            None => {},
        }
        let ghost reg = if s0.registry.contains_key(inst) {
            s0.registry.insert(inst, (s0.registry[inst].0, Some(item_type_id)))
        } else {
            s0.registry
        };
        let ghost s1 = ParserV { stacks: s0.stacks.insert(inst, new_stack_size), registry: reg, ..s0 };
        assert(self@ =~= s1);
        if !had_prior {
            let at = ts_secs(&ts, line);
            match &item_name {
                Some(n) => {
                    let nc = chars_of(n.as_str());
                    match self.consume_chat_gain_for_add_item(nc.as_slice(), at) {
                        Some(chat_qty) => {
                            let provenance = compute_provenance(&self.activity_contexts);
                            let old_size = if new_stack_size >= chat_qty {
                                new_stack_size - chat_qty
                            } else {
                                0
                            };
                            let delta: i32 = if chat_qty <= 2147483647 {
                                chat_qty as i32
                            } else {
                                (chat_qty as i64 - 4294967296) as i32
                            };
                            return Some(
                                PlayerEvent::ItemStackChanged {
                                    timestamp: string_of(ts.as_slice()),
                                    instance_id: inst,
                                    item_name: clone_ostr(&item_name),
                                    item_type_id,
                                    old_stack_size: old_size,
                                    new_stack_size,
                                    delta,
                                    from_server,
                                    provenance,
                                },
                            );
                        },
                        None => {
                            return None;
                        },
                    }
                },
                None => {
                    return None;
                },
            }
        }
        let old_i: i64 = if old_stack_size <= 2147483647 {
            old_stack_size as i64
        } else {
            old_stack_size as i64 - 4294967296
        };
        let delta: i64 = new_stack_size as i64 - old_i;
        let provenance = if delta > 0 {
            compute_provenance(&self.activity_contexts)
        } else {
            ItemProvenance::NotApplicable
        };
        Some(
            PlayerEvent::ItemStackChanged {
                timestamp: string_of(ts.as_slice()),
                instance_id: inst,
                item_name,
                item_type_id,
                old_stack_size,
                new_stack_size,
                delta: delta as i32,
                from_server,
                provenance,
            },
        )
    }

    /// `ProcessDeleteItem(instanceId)`: buffered until the next line.
    fn parse_delete_item(&mut self, line: &[char])
        ensures
            final(self)@ == delete_step(old(self)@, line@),
    {
        let (ts, inst) = match delete_item_fields_exec(line) {
            Some(f) => f,
            None => {
                return ;
            },
        };
        let item_name = self.registry_name(inst);
        self.instance_registry.remove(&inst);
        self.stack_sizes.remove(&inst);
        let ghost before = self.pending_deletes@;
        self.pending_deletes.push(
            PendingDelete { timestamp: string_of(ts.as_slice()), instance_id: inst, item_name },
        );
        assert(deletes_view(self.pending_deletes@) =~= deletes_view(before).push(
            (ts@, inst, name_of(old(self)@, inst)),
        ));
        assert(self@.registry =~= old(self)@.registry.remove(inst));
        assert(self@ =~= delete_step(old(self)@, line@));
    }

    /// `ProcessStartInteraction`: remember the interaction.
    fn parse_start_interaction(&mut self, line: &[char]) -> (r: Option<PlayerEvent>)
        requires
            rparen_ok(line@, "ProcessStartInteraction("@),
        ensures
            final(self)@ == start_interaction_step(old(self)@, line@).0,
            ev_opt(r) == start_interaction_step(old(self)@, line@).1,
    {
        let ev = parse_start_interaction(line)?;
        match &ev {
            PlayerEvent::InteractionStarted { timestamp, entity_id, interaction_type, npc_name } => {
                let tsc = chars_of(timestamp.as_str());
                proof {
                    crate::log_fields::lemma_line_timestamp_secs(line@);
                }
                let captured = timestamp_to_secs(tsc.as_slice());
                self.current_interaction = Some(
                    InteractionContext {
                        entity_id: *entity_id,
                        npc_name: npc_name.clone(),
                        interaction_type: *interaction_type,
                    },
                );
                let nchars = chars_of(npc_name.as_str());
                let name = if nchars.len() == 0 {
                    None
                } else {
                    Some(npc_name.clone())
                };
                self.pending_interaction = Some(
                    PendingInteractionMeta { entity_id: *entity_id, name, captured_at_secs: captured },
                );
            },
            _ => {},
        }
        assert(self@ =~= start_interaction_step(old(self)@, line@).0);
        Some(ev)
    }

    /// `ProcessRemoveFromStorageVault(npcId, -1, instanceId, quantity)`.
    fn parse_remove_from_storage(&mut self, line: &[char]) -> (r: Option<PlayerEvent>)
        ensures
            final(self)@ == remove_storage_step(old(self)@, line@).0,
            ev_opt(r) == remove_storage_step(old(self)@, line@).1,
    {
        let (ts, npc_id, instance_id, quantity) = remove_storage_fields_exec(line)?;
        let vault_key = self.current_vault_key();
        let provenance = compute_storage_provenance(&self.activity_contexts, npc_id);
        if !self.stack_sizes.contains_key(&instance_id) {
            self.stack_sizes.insert(instance_id, quantity);
        }
        assert(self@ =~= remove_storage_step(old(self)@, line@).0);
        Some(
            PlayerEvent::StorageWithdrawal {
                timestamp: string_of(ts.as_slice()),
                npc_id,
                vault_key,
                instance_id,
                quantity,
                provenance,
            },
        )
    }

    /// `ProcessDoDelayLoop(duration, actionType, "label", entityId, abortCondition)`.
    fn parse_delay_loop(&mut self, line: &[char]) -> (r: Option<PlayerEvent>)
        requires
            delay_ok(line@),
        ensures
            final(self)@ == delay_loop_step(old(self)@, line@).0,
            ev_opt(r) == delay_loop_step(old(self)@, line@).1,
    {
        let (ts, d, at, label, entity_id, ab) = delay_loop_fields_exec(line)?;
        let started = ts_secs(&ts, line);
        let dur = crate::decimal::duration_secs_exec(d.as_slice());
        let deadline = started + dur + DELAY_LOOP_SLACK_SECS;
        match classify_delay_loop(at.as_slice(), label.as_slice(), &self.pending_interaction) {
            Some(source) => {
                let ce = match &source {
                    ActivitySource::Mining { node_entity_id, .. } => *node_entity_id,
                    _ => match &self.pending_interaction {
                        Some(p) => Some(p.entity_id),
                        None => None,
                    },
                };
                let n = self.activity_contexts.len();
                let extend = if n > 0 {
                    let top = &self.activity_contexts[n - 1];
                    let same_entity = match (top.entity_id, ce) {
                        (Some(x), Some(y)) => x == y,
                        (None, None) => true,
                        _ => false,
                    };
                    activity_source_matches(&top.source, &source) && same_entity
                } else {
                    false
                };
                if extend {
                    let mut c = copy_context(&self.activity_contexts[n - 1]);
                    c.close_deadline_secs = deadline;
                    self.activity_contexts.set(n - 1, c);
                } else {
                    self.activity_contexts.push(
                        ActivityContext {
                            source,
                            started_at: string_of(ts.as_slice()),
                            started_at_secs: started,
                            close_deadline_secs: deadline,
                            entity_id: ce,
                        },
                    );
                }
            },
            None => {},
        }
        assert(self@ =~= delay_loop_step(old(self)@, line@).0);
        Some(
            PlayerEvent::DelayLoopStarted {
                timestamp: string_of(ts.as_slice()),
                duration: string_of(d.as_slice()),
                action_type: string_of(at.as_slice()),
                label: string_of(label.as_slice()),
                entity_id,
                abort_condition: string_of(ab.as_slice()),
            },
        )
    }

    /// `ProcessEndInteraction(entityId)`.
    fn parse_end_interaction(&mut self, line: &[char]) -> (r: Option<PlayerEvent>)
        ensures
            final(self)@ == end_interaction_step(old(self)@, line@).0,
            ev_opt(r) == end_interaction_step(old(self)@, line@).1,
    {
        let ev = parse_end_interaction(line)?;
        match &ev {
            PlayerEvent::InteractionEnded { entity_id, .. } => {
                self.current_interaction = None;
                if *entity_id >= 0 {
                    let kept = retain_not_entity(&self.activity_contexts, *entity_id as u32);
                    self.activity_contexts = kept;
                }
            },
            _ => {},
        }
        assert(self@ =~= end_interaction_step(old(self)@, line@).0);
        Some(ev)
    }

    /// `ProcessTalkScreen`: a corpse dialog opens a corpse search.
    fn handle_talk_screen(&mut self, line: &[char])
        ensures
            final(self)@ == talk_screen_step(old(self)@, line@),
    {
        let ts = match line_ts(line) {
            Some(t) => t,
            None => {
                return ;
            },
        };
        let args = match after_marker(line, "ProcessTalkScreen(") {
            Some(a) => a,
            None => {
                return ;
            },
        };
        let (e, rest) = match cut_at(args.as_slice(), ',') {
            Some(p) => p,
            None => {
                return ;
            },
        };
        let entity = match trimmed_u32_exec(e.as_slice()) {
            Some(x) => x,
            None => {
                return ;
            },
        };
        let (_, r2) = match cut_at(rest.as_slice(), '"') {
            Some(p) => p,
            None => {
                return ;
            },
        };
        let (title, _) = match cut_at(r2.as_slice(), '"') {
            Some(p) => p,
            None => {
                return ;
            },
        };
        let corpse = match strip_prefix_str(title.as_slice(), "Search Corpse of ") {
            Some(c) => c,
            None => {
                return ;
            },
        };
        let started = ts_secs(&ts, line);
        let deadline = started + DEFAULT_CONTEXT_LIFETIME_SECS;
        let found = find_corpse(&self.activity_contexts, entity);
        proof {
            crate::activity::lemma_first_index(contexts_view(self.activity_contexts@), corpse_of(entity));
        }
        match found {
            Some(i) => {
                let mut c = copy_context(&self.activity_contexts[i]);
                c.close_deadline_secs = deadline;
                self.activity_contexts.set(i, c);
            },
            None => {
                let name = trim_ws(corpse.as_slice());
                self.activity_contexts.push(
                    ActivityContext {
                        source: ActivitySource::CorpseSearch {
                            entity_id: entity,
                            corpse_name: string_of(name.as_slice()),
                        },
                        started_at: string_of(ts.as_slice()),
                        started_at_secs: started,
                        close_deadline_secs: deadline,
                        entity_id: Some(entity),
                    },
                );
            },
        }
        assert(self@ =~= talk_screen_step(old(self)@, line@));
    }

    /// `ProcessVendorScreen(npcId, ...)`: opens vendor browsing.
    fn handle_vendor_screen(&mut self, line: &[char])
        ensures
            final(self)@ == vendor_screen_step(old(self)@, line@),
    {
        let ts = match line_ts(line) {
            Some(t) => t,
            None => {
                return ;
            },
        };
        let args = match after_marker(line, "ProcessVendorScreen(") {
            Some(a) => a,
            None => {
                return ;
            },
        };
        let (e, _) = match cut_at(args.as_slice(), ',') {
            Some(p) => p,
            None => {
                return ;
            },
        };
        let npc_id = match trimmed_u32_exec(e.as_slice()) {
            Some(x) => x,
            None => {
                return ;
            },
        };
        let npc_name = match &self.pending_interaction {
            Some(pi) => if pi.entity_id == npc_id {
                clone_ostr(&pi.name)
            } else {
                None
            },
            None => None,
        };
        let started = ts_secs(&ts, line);
        self.activity_contexts.push(
            ActivityContext {
                source: ActivitySource::VendorBrowsing { npc_entity_id: npc_id, npc_name },
                started_at: string_of(ts.as_slice()),
                started_at_secs: started,
                close_deadline_secs: started + DEFAULT_CONTEXT_LIFETIME_SECS,
                entity_id: Some(npc_id),
            },
        );
        assert(self@ =~= vendor_screen_step(old(self)@, line@));
    }

    /// `ProcessShowStorageVault(ownerId, _, "vault name", ...)`: opens
    /// storage browsing.
    fn handle_show_storage_vault(&mut self, line: &[char])
        ensures
            final(self)@ == storage_vault_step(old(self)@, line@),
    {
        let ts = match line_ts(line) {
            Some(t) => t,
            None => {
                return ;
            },
        };
        let args = match after_marker(line, "ProcessShowStorageVault(") {
            Some(a) => a,
            None => {
                return ;
            },
        };
        let (e, rest) = match cut_at(args.as_slice(), ',') {
            Some(p) => p,
            None => {
                return ;
            },
        };
        let owner_id = match trimmed_u32_exec(e.as_slice()) {
            Some(x) => x,
            None => {
                return ;
            },
        };
        let vault_name: Vec<char> = match cut_at(rest.as_slice(), '"') {
            Some((_, r2)) => match cut_at(r2.as_slice(), '"') {
                Some((v, _)) => v,
                None => Vec::new(),
            },
            None => Vec::new(),
        };
        assert(vault_name@ == first_quoted_or_empty(rest@));
        let started = ts_secs(&ts, line);
        self.activity_contexts.push(
            ActivityContext {
                source: ActivitySource::StorageBrowsing {
                    vault_owner_entity_id: owner_id,
                    vault_name: string_of(vault_name.as_slice()),
                },
                started_at: string_of(ts.as_slice()),
                started_at_secs: started,
                close_deadline_secs: started + DEFAULT_CONTEXT_LIFETIME_SECS,
                entity_id: Some(owner_id),
            },
        );
        assert(self@ =~= storage_vault_step(old(self)@, line@));
    }

    /// Handle one recognised line kind (after the flush).
    fn handle(&mut self, line: &[char], kind: LineKind) -> (r: Option<PlayerEvent>)
        requires
            branch_ok(old(self)@, line@, kind),
        ensures
            final(self)@ == branch(old(self)@, line@, kind).0,
            ev_opt(r) == branch(old(self)@, line@, kind).1,
    {
        match kind {
            LineKind::AddItem => self.parse_add_item(line),
            LineKind::UpdateItemCode => self.parse_update_item_code(line),
            LineKind::LoadSkills => parse_load_skills(line),
            LineKind::StartInteraction => self.parse_start_interaction(line),
            LineKind::DeltaFavor => parse_delta_favor(line),
            LineKind::VendorAddItem => parse_vendor_add_item(line),
            LineKind::VendorUpdateItem => parse_vendor_update_item(line),
            LineKind::AddToStorage => {
                let vk = self.current_vault_key();
                parse_add_to_storage(line, vk)
            },
            LineKind::RemoveFromStorage => self.parse_remove_from_storage(line),
            LineKind::DelayLoop => self.parse_delay_loop(line),
            LineKind::ScreenText => parse_screen_text(line),
            LineKind::Book => parse_book(line),
            LineKind::EndInteraction => self.parse_end_interaction(line),
            LineKind::TalkScreen => {
                self.handle_talk_screen(line);
                None
            },
            LineKind::VendorScreen => {
                self.handle_vendor_screen(line);
                None
            },
            LineKind::ShowStorageVault => {
                self.handle_show_storage_vault(line);
                None
            },
            LineKind::SetActiveSkills => parse_set_active_skills(line),
            LineKind::PlayerMount => parse_player_mount(line),
            LineKind::SetWeather => parse_set_weather(line),
            LineKind::UpdateRecipe => parse_update_recipe(line),
            LineKind::CombatMode => parse_combat_mode_status(line),
            LineKind::VendorGold => parse_vendor_update_gold(line),
            LineKind::SetAttributes => parse_set_attributes(line),
            LineKind::LoadAbilities => parse_load_abilities(line),
            LineKind::LoadRecipes => parse_load_recipes(line),
            LineKind::SetEquippedItems => parse_set_equipped_items(line),
            LineKind::AddEffects => parse_add_effects(line),
            LineKind::RemoveEffects => parse_remove_effects(line),
            LineKind::UpdateEffectName => parse_update_effect_name(line),
            LineKind::UpdateDescription => parse_update_description(line),
            LineKind::CelestialInfo => parse_celestial_info(line),
            LineKind::GuildInfo => parse_guild_general_info(line),
            LineKind::DirectedGoals => parse_complete_directed_goals(line),
            LineKind::SetString => parse_set_string(line),
            _ => None,
        }
    }

    /// Feed one log line; returns the events it produces, in order.
    pub fn process_line(&mut self, line: &str) -> (r: Vec<PlayerEvent>)
        requires
            step_ok(old(self)@, line@),
        ensures
            final(self)@ == step(old(self)@, line@).0,
            events_view(r@) == step(old(self)@, line@).1,
    {
        let l = chars_of(line);
        let mut events: Vec<PlayerEvent> = Vec::new();
        assert(events_view(events@) =~= Seq::<EventV>::empty());
        match line_ts(l.as_slice()) {
            Some(ts) => {
                let now = ts_secs(&ts, l.as_slice());
                self.expire_stale_activities(now);
            },
            None => {},
        }
        let ghost s1 = self@;
        assert(s1 == expire_at(old(self)@, line@));
        if self.resolve_pending_deletes(l.as_slice(), &mut events) {
            assert(Seq::<EventV>::empty() + step(old(self)@, line@).1 =~= step(old(self)@, line@).1);
            return events;
        }
        if !contains_str(l.as_slice(), "LocalPlayer: Process") {
            self.flush_pending_deletes(&mut events);
            assert(Seq::<EventV>::empty() + flush_events(s1.deletes) =~= flush_events(s1.deletes));
            return events;
        }
        let kind = classify_line(l.as_slice());
        if let LineKind::DeleteItem = kind {
            self.parse_delete_item(l.as_slice());
            return events;
        }
        self.flush_pending_deletes(&mut events);
        let e = self.handle(l.as_slice(), kind);
        push_opt(&mut events, e);
        assert(Seq::<EventV>::empty() + flush_events(s1.deletes) =~= flush_events(s1.deletes));
        events
    }
}

} // verus!
