//! Event and attribution types produced by the Player.log parser, with the
//! character-sequence views their contracts speak of.

use vstd::prelude::*;
use crate::text::string_of;

verus! {

// ============================================================
// Shared view helpers
// ============================================================

pub open spec fn ostr(o: Option<String>) -> Option<Seq<char>> {
    match o {
        Some(s) => Some(s@),
        None => None,
    }
}

/// A copy of an optional string.
pub fn clone_ostr(o: &Option<String>) -> (r: Option<String>)
    ensures
        ostr(r) == ostr(*o),
{
    match o {
        Some(s) => Some(s.clone()),
        None => None,
    }
}

/// An optional string holding exactly the given characters.
pub fn ostring_of(o: &Option<Vec<char>>) -> (r: Option<String>)
    ensures
        ostr(r) == match *o {
            Some(v) => Some(v@),
            None => None::<Seq<char>>,
        },
{
    match o {
        Some(v) => Some(string_of(v.as_slice())),
        None => None,
    }
}

// ============================================================
// Delete context and attribution
// ============================================================

/// Why an item left the inventory, as far as the following line tells.
#[derive(Clone, Copy, Debug, PartialEq, Eq)]
pub enum DeleteContext {
    StorageTransfer,
    VendorSale,
    Consumed,
    Unknown,
}

/// How sure an attribution is.
#[derive(Clone, Copy, Debug, PartialEq, Eq)]
pub enum AttributionConfidence {
    /// Exactly one active context.
    Confident,
    /// Several contexts; one preferred by a tie-breaker.
    Probable,
    /// A best guess without strong signal.
    Weak,
}

/// Discriminated source of an inventory gain, reconstructed from the
/// Player.log context.
#[derive(Clone, Debug, PartialEq)]
pub enum ActivitySource {
    /// Mining at a world node; the name is present only when the game
    /// emitted one.
    Mining { node_entity_id: Option<u32>, node_name: Option<String> },
    /// Using a survey map.
    SurveyMapUse { survey_map_internal_name: Option<String> },
    /// Crafting a new survey map.
    SurveyMapCraft,
    /// Other crafting/use actions detected via `DoDelayLoop`.
    GeneralCraft { action_type: String, label: String },
    /// Searching a corpse.
    CorpseSearch { entity_id: u32, corpse_name: String },
    /// Vendor trade window open.
    VendorBrowsing { npc_entity_id: u32, npc_name: Option<String> },
    /// Storage vault UI open.
    StorageBrowsing { vault_owner_entity_id: u32, vault_name: String },
}

/// View of an [`ActivitySource`].
pub enum SourceV {
    Mining { node: Option<u32>, name: Option<Seq<char>> },
    SurveyMapUse { map: Option<Seq<char>> },
    SurveyMapCraft,
    GeneralCraft { action: Seq<char>, label: Seq<char> },
    CorpseSearch { entity: u32, corpse: Seq<char> },
    VendorBrowsing { npc: u32, name: Option<Seq<char>> },
    StorageBrowsing { owner: u32, vault: Seq<char> },
}

impl ActivitySource {
    pub open spec fn sv(self) -> SourceV {
        match self {
            ActivitySource::Mining { node_entity_id, node_name } => SourceV::Mining {
                node: node_entity_id,
                name: ostr(node_name),
            },
            ActivitySource::SurveyMapUse { survey_map_internal_name } => SourceV::SurveyMapUse {
                map: ostr(survey_map_internal_name),
            },
            ActivitySource::SurveyMapCraft => SourceV::SurveyMapCraft,
            ActivitySource::GeneralCraft { action_type, label } => SourceV::GeneralCraft {
                action: action_type@,
                label: label@,
            },
            ActivitySource::CorpseSearch { entity_id, corpse_name } => SourceV::CorpseSearch {
                entity: entity_id,
                corpse: corpse_name@,
            },
            ActivitySource::VendorBrowsing { npc_entity_id, npc_name } => SourceV::VendorBrowsing {
                npc: npc_entity_id,
                name: ostr(npc_name),
            },
            ActivitySource::StorageBrowsing { vault_owner_entity_id, vault_name } =>
                SourceV::StorageBrowsing { owner: vault_owner_entity_id, vault: vault_name@ },
        }
    }

    /// A copy with the same view.
    pub fn duplicate(&self) -> (r: ActivitySource)
        ensures
            r.sv() == self.sv(),
    {
        match self {
            ActivitySource::Mining { node_entity_id, node_name } => ActivitySource::Mining {
                node_entity_id: *node_entity_id,
                node_name: clone_ostr(node_name),
            },
            ActivitySource::SurveyMapUse { survey_map_internal_name } =>
                ActivitySource::SurveyMapUse {
                    survey_map_internal_name: clone_ostr(survey_map_internal_name),
                },
            ActivitySource::SurveyMapCraft => ActivitySource::SurveyMapCraft,
            ActivitySource::GeneralCraft { action_type, label } => ActivitySource::GeneralCraft {
                action_type: action_type.clone(),
                label: label.clone(),
            },
            ActivitySource::CorpseSearch { entity_id, corpse_name } =>
                ActivitySource::CorpseSearch { entity_id: *entity_id, corpse_name: corpse_name.clone() },
            ActivitySource::VendorBrowsing { npc_entity_id, npc_name } =>
                ActivitySource::VendorBrowsing {
                    npc_entity_id: *npc_entity_id,
                    npc_name: clone_ostr(npc_name),
                },
            ActivitySource::StorageBrowsing { vault_owner_entity_id, vault_name } =>
                ActivitySource::StorageBrowsing {
                    vault_owner_entity_id: *vault_owner_entity_id,
                    vault_name: vault_name.clone(),
                },
        }
    }
}

pub open spec fn sources_view(v: Seq<ActivitySource>) -> Seq<SourceV> {
    v.map_values(|s: ActivitySource| s.sv())
}

/// Where did this item come from? Attached to every inventory gain event.
///
/// `Attributed` when exactly one active context (or a preferred one) explains
/// the gain, `Uncertain` with the candidates when several do, `UnknownSource`
/// when none is active, and `NotApplicable` for state reconciliation that is
/// not a real gain.
#[derive(Clone, Debug, PartialEq)]
pub enum ItemProvenance {
    Attributed {
        source: ActivitySource,
        confidence: AttributionConfidence,
        /// Link to a `survey_uses` row, set by the survey aggregator; the
        /// parser itself leaves it `None`.
        survey_use_id: Option<i64>,
    },
    Uncertain { candidates: Vec<ActivitySource> },
    UnknownSource,
    NotApplicable,
}

/// View of an [`ItemProvenance`].
pub enum ProvV {
    Attributed { source: SourceV, confidence: AttributionConfidence, survey_use_id: Option<i64> },
    Uncertain { candidates: Seq<SourceV> },
    UnknownSource,
    NotApplicable,
}

impl ItemProvenance {
    pub open spec fn pv(self) -> ProvV {
        match self {
            ItemProvenance::Attributed { source, confidence, survey_use_id } => ProvV::Attributed {
                source: source.sv(),
                confidence,
                survey_use_id,
            },
            ItemProvenance::Uncertain { candidates } => ProvV::Uncertain {
                candidates: sources_view(candidates@),
            },
            ItemProvenance::UnknownSource => ProvV::UnknownSource,
            ItemProvenance::NotApplicable => ProvV::NotApplicable,
        }
    }
}

/// Database-ready representation of an `ItemProvenance`: the
/// `source_kind`, `source_details` and `confidence` columns of
/// `item_transactions`.
pub struct ProvenanceColumns {
    pub source_kind: Option<String>,
    pub source_details: Option<String>,
    pub confidence: Option<String>,
}

/// The `confidence` column text.
pub open spec fn confidence_text(c: AttributionConfidence) -> Seq<char> {
    match c {
        AttributionConfidence::Confident => "confident"@,
        AttributionConfidence::Probable => "probable"@,
        AttributionConfidence::Weak => "weak"@,
    }
}

pub fn confidence_to_string(c: &AttributionConfidence) -> (r: &'static str)
    ensures
        r@ == confidence_text(*c),
{
    match c {
        AttributionConfidence::Confident => "confident",
        AttributionConfidence::Probable => "probable",
        AttributionConfidence::Weak => "weak",
    }
}

/// The `source_kind` column text of an activity source.
pub open spec fn source_kind_text(s: SourceV) -> Seq<char> {
    match s {
        SourceV::Mining { .. } => "mining"@,
        SourceV::SurveyMapUse { .. } => "survey_map_use"@,
        SourceV::SurveyMapCraft => "survey_map_craft"@,
        SourceV::GeneralCraft { .. } => "general_craft"@,
        SourceV::CorpseSearch { .. } => "corpse_search"@,
        SourceV::VendorBrowsing { .. } => "vendor_browsing"@,
        SourceV::StorageBrowsing { .. } => "storage_browsing"@,
    }
}

pub fn source_kind(s: &ActivitySource) -> (r: &'static str)
    ensures
        r@ == source_kind_text(s.sv()),
{
    match s {
        ActivitySource::Mining { .. } => "mining",
        ActivitySource::SurveyMapUse { .. } => "survey_map_use",
        ActivitySource::SurveyMapCraft => "survey_map_craft",
        ActivitySource::GeneralCraft { .. } => "general_craft",
        ActivitySource::CorpseSearch { .. } => "corpse_search",
        ActivitySource::VendorBrowsing { .. } => "vendor_browsing",
        ActivitySource::StorageBrowsing { .. } => "storage_browsing",
    }
}

/// The `source_kind` column text of a provenance.
pub open spec fn provenance_kind_text(p: ProvV) -> Seq<char> {
    match p {
        ProvV::Attributed { source, .. } => source_kind_text(source),
        ProvV::Uncertain { .. } => "uncertain"@,
        ProvV::UnknownSource => "unknown"@,
        ProvV::NotApplicable => "not_applicable"@,
    }
}

/// The `confidence` column text of a provenance (`None` unless attributed).
pub open spec fn provenance_confidence_text(p: ProvV) -> Option<Seq<char>> {
    match p {
        ProvV::Attributed { confidence, .. } => Some(confidence_text(confidence)),
        _ => None,
    }
}

impl ItemProvenance {
    /// The `source_kind` column text.
    pub fn kind_column(&self) -> (r: &'static str)
        ensures
            r@ == provenance_kind_text(self.pv()),
    {
        match self {
            ItemProvenance::Attributed { source, .. } => source_kind(source),
            ItemProvenance::Uncertain { .. } => "uncertain",
            ItemProvenance::UnknownSource => "unknown",
            ItemProvenance::NotApplicable => "not_applicable",
        }
    }

    /// The `confidence` column text.
    pub fn confidence_column(&self) -> (r: Option<&'static str>)
        ensures
            match r {
                Some(t) => provenance_confidence_text(self.pv()) == Some(t@),
                None => provenance_confidence_text(self.pv()) is None,
            },
    {
        match self {
            ItemProvenance::Attributed { confidence, .. } => Some(confidence_to_string(confidence)),
            _ => None,
        }
    }
}

// ============================================================
// Snapshots
// ============================================================

#[derive(Clone, Debug)]
pub struct SkillSnapshot {
    pub skill_type: String,
    pub raw: u32,
    pub bonus: u32,
    pub xp: u32,
    pub tnl: i32,
    pub max: u32,
}

pub struct SkillV {
    pub skill_type: Seq<char>,
    pub raw: u32,
    pub bonus: u32,
    pub xp: u32,
    pub tnl: i32,
    pub max: u32,
}

impl SkillSnapshot {
    pub open spec fn kv(self) -> SkillV {
        SkillV {
            skill_type: self.skill_type@,
            raw: self.raw,
            bonus: self.bonus,
            xp: self.xp,
            tnl: self.tnl,
            max: self.max,
        }
    }
}

/// One attribute of `ProcessSetAttributes`. The value is kept as the
/// decimal literal written in the log; it is known to parse as `f32`.
#[derive(Clone, Debug)]
pub struct AttributeValue {
    pub name: String,
    pub value: String,
}

#[derive(Clone, Debug, PartialEq)]
pub struct EquipmentSlot {
    pub slot: String,
    pub appearance_key: String,
}

impl EquipmentSlot {
    pub open spec fn qv(self) -> (Seq<char>, Seq<char>) {
        (self.slot@, self.appearance_key@)
    }
}

pub open spec fn slots_view(v: Seq<EquipmentSlot>) -> Seq<(Seq<char>, Seq<char>)> {
    v.map_values(|e: EquipmentSlot| e.qv())
}

pub open spec fn skills_view(v: Seq<SkillSnapshot>) -> Seq<SkillV> {
    v.map_values(|e: SkillSnapshot| e.kv())
}

pub open spec fn attrs_view(v: Seq<AttributeValue>) -> Seq<(Seq<char>, Seq<char>)> {
    v.map_values(|e: AttributeValue| (e.name@, e.value@))
}

// ============================================================
// Activity contexts
// ============================================================

/// One active activity context: a potential source of inventory gains.
#[derive(Clone, Debug)]
pub struct ActivityContext {
    pub source: ActivitySource,
    /// Timestamp the context was opened (HH:MM:SS from Player.log).
    pub started_at: String,
    /// Seconds since start-of-day of `started_at`.
    pub started_at_secs: u32,
    /// Seconds-of-day at which the context is considered stale.
    pub close_deadline_secs: u32,
    /// Entity matched by an explicit `EndInteraction`, when applicable.
    pub entity_id: Option<u32>,
}

pub struct ContextV {
    pub source: SourceV,
    pub started_at: Seq<char>,
    pub started_at_secs: u32,
    pub close_deadline_secs: u32,
    pub entity_id: Option<u32>,
}

impl ActivityContext {
    pub open spec fn cv(self) -> ContextV {
        ContextV {
            source: self.source.sv(),
            started_at: self.started_at@,
            started_at_secs: self.started_at_secs,
            close_deadline_secs: self.close_deadline_secs,
            entity_id: self.entity_id,
        }
    }
}

pub open spec fn contexts_view(v: Seq<ActivityContext>) -> Seq<ContextV> {
    v.map_values(|c: ActivityContext| c.cv())
}

// ============================================================
// Events
// ============================================================

/// A structured, identity-resolved event from one Player.log line.
///
/// Values that the game writes as decimal fractions (favor deltas, delay
/// durations, attribute values) are kept as the literal text of the log; each
/// is known to parse as `f32`.
#[derive(Clone, Debug)]
pub enum PlayerEvent {
    ItemAdded {
        timestamp: String,
        item_name: String,
        instance_id: u64,
        slot_index: i32,
        is_new: bool,
        /// Initial stack quantity: a matching chat gain's quantity, else 1.
        initial_quantity: u32,
        provenance: ItemProvenance,
    },
    ItemStackChanged {
        timestamp: String,
        instance_id: u64,
        item_name: Option<String>,
        item_type_id: u16,
        old_stack_size: u32,
        new_stack_size: u32,
        delta: i32,
        from_server: bool,
        provenance: ItemProvenance,
    },
    ItemDeleted {
        timestamp: String,
        instance_id: u64,
        item_name: Option<String>,
        context: DeleteContext,
    },
    SkillsLoaded { timestamp: String, skills: Vec<SkillSnapshot> },
    InteractionStarted {
        timestamp: String,
        entity_id: u32,
        interaction_type: u32,
        npc_name: String,
    },
    FavorChanged {
        timestamp: String,
        npc_id: u32,
        npc_name: String,
        /// Decimal literal as written in the log.
        delta: String,
        is_gift: bool,
    },
    VendorSold {
        timestamp: String,
        price: u32,
        item_name: String,
        instance_id: u64,
        is_buyback: bool,
    },
    VendorStackUpdated {
        timestamp: String,
        instance_id: u64,
        item_type_id: u16,
        new_stack_size: u32,
        price: u32,
    },
    StorageDeposit {
        timestamp: String,
        npc_id: u32,
        vault_key: Option<String>,
        slot: i32,
        item_name: String,
        instance_id: u64,
    },
    StorageWithdrawal {
        timestamp: String,
        npc_id: u32,
        vault_key: Option<String>,
        instance_id: u64,
        quantity: u32,
        provenance: ItemProvenance,
    },
    DelayLoopStarted {
        timestamp: String,
        /// Decimal literal as written in the log (seconds).
        duration: String,
        action_type: String,
        label: String,
        entity_id: u32,
        abort_condition: String,
    },
    ScreenText { timestamp: String, category: String, message: String },
    BookOpened { timestamp: String, title: String, content: String, book_type: String },
    InteractionEnded { timestamp: String, entity_id: i32 },
    ActiveSkillsChanged { timestamp: String, skill1: String, skill2: String },
    MountStateChanged { timestamp: String, entity_id: u32, is_mounting: bool },
    WeatherChanged { timestamp: String, weather_name: String, is_active: bool },
    RecipeUpdated { timestamp: String, recipe_id: u32, completion_count: u32 },
    CombatStateChanged { timestamp: String, in_combat: bool },
    VendorGoldChanged { timestamp: String, current_gold: u32, server_id: u64, max_gold: u32 },
    AttributesChanged { timestamp: String, entity_id: u32, attributes: Vec<AttributeValue> },
    AbilitiesLoaded { timestamp: String, skill1: String, skill2: String },
    RecipesLoaded { timestamp: String },
    EquipmentChanged {
        timestamp: String,
        entity_id: u32,
        appearance: String,
        equipment: Vec<EquipmentSlot>,
    },
    EffectsAdded {
        timestamp: String,
        entity_id: u32,
        source_entity_id: u32,
        effect_ids: Vec<u32>,
        is_login_batch: bool,
    },
    MoonPhaseChanged { timestamp: String, phase: String },
    GuildInfoLoaded { timestamp: String, guild_id: u32, guild_name: String, motd: String },
    DirectedGoalsLoaded { timestamp: String, goal_ids: Vec<u32> },
    PlayerStringUpdated { timestamp: String, key: String, value: String },
    /// `ProcessRemoveEffects` prints an opaque array, so only the entity is known.
    EffectsRemoved { timestamp: String, entity_id: u32 },
    EffectNameUpdated {
        timestamp: String,
        entity_id: u32,
        effect_instance_id: u32,
        display_name: String,
    },
    /// Entity state change (garden plants, crafting items with timers, ...).
    EntityDescriptionUpdated {
        timestamp: String,
        entity_id: u32,
        name: String,
        description: String,
        action: String,
        action_type: String,
        appearance: String,
        flags: u32,
    },
}

/// View of a [`PlayerEvent`].
pub enum EventV {
    ItemAdded {
        ts: Seq<char>,
        item_name: Seq<char>,
        instance_id: u64,
        slot_index: i32,
        is_new: bool,
        initial_quantity: u32,
        provenance: ProvV,
    },
    ItemStackChanged {
        ts: Seq<char>,
        instance_id: u64,
        item_name: Option<Seq<char>>,
        item_type_id: u16,
        old_stack_size: u32,
        new_stack_size: u32,
        delta: i32,
        from_server: bool,
        provenance: ProvV,
    },
    ItemDeleted { ts: Seq<char>, instance_id: u64, item_name: Option<Seq<char>>, context: DeleteContext },
    SkillsLoaded { ts: Seq<char>, skills: Seq<SkillV> },
    InteractionStarted { ts: Seq<char>, entity_id: u32, interaction_type: u32, npc_name: Seq<char> },
    FavorChanged { ts: Seq<char>, npc_id: u32, npc_name: Seq<char>, delta: Seq<char>, is_gift: bool },
    VendorSold { ts: Seq<char>, price: u32, item_name: Seq<char>, instance_id: u64, is_buyback: bool },
    VendorStackUpdated {
        ts: Seq<char>,
        instance_id: u64,
        item_type_id: u16,
        new_stack_size: u32,
        price: u32,
    },
    StorageDeposit {
        ts: Seq<char>,
        npc_id: u32,
        vault_key: Option<Seq<char>>,
        slot: i32,
        item_name: Seq<char>,
        instance_id: u64,
    },
    StorageWithdrawal {
        ts: Seq<char>,
        npc_id: u32,
        vault_key: Option<Seq<char>>,
        instance_id: u64,
        quantity: u32,
        provenance: ProvV,
    },
    DelayLoopStarted {
        ts: Seq<char>,
        duration: Seq<char>,
        action_type: Seq<char>,
        label: Seq<char>,
        entity_id: u32,
        abort_condition: Seq<char>,
    },
    ScreenText { ts: Seq<char>, category: Seq<char>, message: Seq<char> },
    BookOpened { ts: Seq<char>, title: Seq<char>, content: Seq<char>, book_type: Seq<char> },
    InteractionEnded { ts: Seq<char>, entity_id: i32 },
    ActiveSkillsChanged { ts: Seq<char>, skill1: Seq<char>, skill2: Seq<char> },
    MountStateChanged { ts: Seq<char>, entity_id: u32, is_mounting: bool },
    WeatherChanged { ts: Seq<char>, weather_name: Seq<char>, is_active: bool },
    RecipeUpdated { ts: Seq<char>, recipe_id: u32, completion_count: u32 },
    CombatStateChanged { ts: Seq<char>, in_combat: bool },
    VendorGoldChanged { ts: Seq<char>, current_gold: u32, server_id: u64, max_gold: u32 },
    AttributesChanged { ts: Seq<char>, entity_id: u32, attributes: Seq<(Seq<char>, Seq<char>)> },
    AbilitiesLoaded { ts: Seq<char>, skill1: Seq<char>, skill2: Seq<char> },
    RecipesLoaded { ts: Seq<char> },
    EquipmentChanged {
        ts: Seq<char>,
        entity_id: u32,
        appearance: Seq<char>,
        equipment: Seq<(Seq<char>, Seq<char>)>,
    },
    EffectsAdded {
        ts: Seq<char>,
        entity_id: u32,
        source_entity_id: u32,
        effect_ids: Seq<u32>,
        is_login_batch: bool,
    },
    MoonPhaseChanged { ts: Seq<char>, phase: Seq<char> },
    GuildInfoLoaded { ts: Seq<char>, guild_id: u32, guild_name: Seq<char>, motd: Seq<char> },
    DirectedGoalsLoaded { ts: Seq<char>, goal_ids: Seq<u32> },
    PlayerStringUpdated { ts: Seq<char>, key: Seq<char>, value: Seq<char> },
    EffectsRemoved { ts: Seq<char>, entity_id: u32 },
    EffectNameUpdated { ts: Seq<char>, entity_id: u32, effect_instance_id: u32, display_name: Seq<char> },
    EntityDescriptionUpdated {
        ts: Seq<char>,
        entity_id: u32,
        name: Seq<char>,
        description: Seq<char>,
        action: Seq<char>,
        action_type: Seq<char>,
        appearance: Seq<char>,
        flags: u32,
    },
}

impl PlayerEvent {
    pub open spec fn ev(self) -> EventV {
        match self {
            PlayerEvent::ItemAdded {
                timestamp,
                item_name,
                instance_id,
                slot_index,
                is_new,
                initial_quantity,
                provenance,
            } => EventV::ItemAdded {
                ts: timestamp@,
                item_name: item_name@,
                instance_id,
                slot_index,
                is_new,
                initial_quantity,
                provenance: provenance.pv(),
            },
            PlayerEvent::ItemStackChanged {
                timestamp,
                instance_id,
                item_name,
                item_type_id,
                old_stack_size,
                new_stack_size,
                delta,
                from_server,
                provenance,
            } => EventV::ItemStackChanged {
                ts: timestamp@,
                instance_id,
                item_name: ostr(item_name),
                item_type_id,
                old_stack_size,
                new_stack_size,
                delta,
                from_server,
                provenance: provenance.pv(),
            },
            PlayerEvent::ItemDeleted { timestamp, instance_id, item_name, context } =>
                EventV::ItemDeleted {
                    ts: timestamp@,
                    instance_id,
                    item_name: ostr(item_name),
                    context,
                },
            PlayerEvent::SkillsLoaded { timestamp, skills } => EventV::SkillsLoaded {
                ts: timestamp@,
                skills: skills_view(skills@),
            },
            PlayerEvent::InteractionStarted { timestamp, entity_id, interaction_type, npc_name } =>
                EventV::InteractionStarted {
                    ts: timestamp@,
                    entity_id,
                    interaction_type,
                    npc_name: npc_name@,
                },
            PlayerEvent::FavorChanged { timestamp, npc_id, npc_name, delta, is_gift } =>
                EventV::FavorChanged {
                    ts: timestamp@,
                    npc_id,
                    npc_name: npc_name@,
                    delta: delta@,
                    is_gift,
                },
            PlayerEvent::VendorSold { timestamp, price, item_name, instance_id, is_buyback } =>
                EventV::VendorSold {
                    ts: timestamp@,
                    price,
                    item_name: item_name@,
                    instance_id,
                    is_buyback,
                },
            PlayerEvent::VendorStackUpdated {
                timestamp,
                instance_id,
                item_type_id,
                new_stack_size,
                price,
            } => EventV::VendorStackUpdated {
                ts: timestamp@,
                instance_id,
                item_type_id,
                new_stack_size,
                price,
            },
            PlayerEvent::StorageDeposit {
                timestamp,
                npc_id,
                vault_key,
                slot,
                item_name,
                instance_id,
            } => EventV::StorageDeposit {
                ts: timestamp@,
                npc_id,
                vault_key: ostr(vault_key),
                slot,
                item_name: item_name@,
                instance_id,
            },
            PlayerEvent::StorageWithdrawal {
                timestamp,
                npc_id,
                vault_key,
                instance_id,
                quantity,
                provenance,
            } => EventV::StorageWithdrawal {
                ts: timestamp@,
                npc_id,
                vault_key: ostr(vault_key),
                instance_id,
                quantity,
                provenance: provenance.pv(),
            },
            PlayerEvent::DelayLoopStarted {
                timestamp,
                duration,
                action_type,
                label,
                entity_id,
                abort_condition,
            } => EventV::DelayLoopStarted {
                ts: timestamp@,
                duration: duration@,
                action_type: action_type@,
                label: label@,
                entity_id,
                abort_condition: abort_condition@,
            },
            PlayerEvent::ScreenText { timestamp, category, message } => EventV::ScreenText {
                ts: timestamp@,
                category: category@,
                message: message@,
            },
            PlayerEvent::BookOpened { timestamp, title, content, book_type } =>
                EventV::BookOpened {
                    ts: timestamp@,
                    title: title@,
                    content: content@,
                    book_type: book_type@,
                },
            PlayerEvent::InteractionEnded { timestamp, entity_id } => EventV::InteractionEnded {
                ts: timestamp@,
                entity_id,
            },
            PlayerEvent::ActiveSkillsChanged { timestamp, skill1, skill2 } =>
                EventV::ActiveSkillsChanged { ts: timestamp@, skill1: skill1@, skill2: skill2@ },
            PlayerEvent::MountStateChanged { timestamp, entity_id, is_mounting } =>
                EventV::MountStateChanged { ts: timestamp@, entity_id, is_mounting },
            PlayerEvent::WeatherChanged { timestamp, weather_name, is_active } =>
                EventV::WeatherChanged {
                    ts: timestamp@,
                    weather_name: weather_name@,
                    is_active,
                },
            PlayerEvent::RecipeUpdated { timestamp, recipe_id, completion_count } =>
                EventV::RecipeUpdated { ts: timestamp@, recipe_id, completion_count },
            PlayerEvent::CombatStateChanged { timestamp, in_combat } =>
                EventV::CombatStateChanged { ts: timestamp@, in_combat },
            PlayerEvent::VendorGoldChanged { timestamp, current_gold, server_id, max_gold } =>
                EventV::VendorGoldChanged { ts: timestamp@, current_gold, server_id, max_gold },
            PlayerEvent::AttributesChanged { timestamp, entity_id, attributes } =>
                EventV::AttributesChanged {
                    ts: timestamp@,
                    entity_id,
                    attributes: attrs_view(attributes@),
                },
            PlayerEvent::AbilitiesLoaded { timestamp, skill1, skill2 } =>
                EventV::AbilitiesLoaded { ts: timestamp@, skill1: skill1@, skill2: skill2@ },
            PlayerEvent::RecipesLoaded { timestamp } => EventV::RecipesLoaded { ts: timestamp@ },
            PlayerEvent::EquipmentChanged { timestamp, entity_id, appearance, equipment } =>
                EventV::EquipmentChanged {
                    ts: timestamp@,
                    entity_id,
                    appearance: appearance@,
                    equipment: slots_view(equipment@),
                },
            PlayerEvent::EffectsAdded {
                timestamp,
                entity_id,
                source_entity_id,
                effect_ids,
                is_login_batch,
            } => EventV::EffectsAdded {
                ts: timestamp@,
                entity_id,
                source_entity_id,
                effect_ids: effect_ids@,
                is_login_batch,
            },
            PlayerEvent::MoonPhaseChanged { timestamp, phase } => EventV::MoonPhaseChanged {
                ts: timestamp@,
                phase: phase@,
            },
            PlayerEvent::GuildInfoLoaded { timestamp, guild_id, guild_name, motd } =>
                EventV::GuildInfoLoaded {
                    ts: timestamp@,
                    guild_id,
                    guild_name: guild_name@,
                    motd: motd@,
                },
            PlayerEvent::DirectedGoalsLoaded { timestamp, goal_ids } =>
                EventV::DirectedGoalsLoaded { ts: timestamp@, goal_ids: goal_ids@ },
            PlayerEvent::PlayerStringUpdated { timestamp, key, value } =>
                EventV::PlayerStringUpdated { ts: timestamp@, key: key@, value: value@ },
            PlayerEvent::EffectsRemoved { timestamp, entity_id } => EventV::EffectsRemoved {
                ts: timestamp@,
                entity_id,
            },
            PlayerEvent::EffectNameUpdated {
                timestamp,
                entity_id,
                effect_instance_id,
                display_name,
            } => EventV::EffectNameUpdated {
                ts: timestamp@,
                entity_id,
                effect_instance_id,
                display_name: display_name@,
            },
            PlayerEvent::EntityDescriptionUpdated {
                timestamp,
                entity_id,
                name,
                description,
                action,
                action_type,
                appearance,
                flags,
            } => EventV::EntityDescriptionUpdated {
                ts: timestamp@,
                entity_id,
                name: name@,
                description: description@,
                action: action@,
                action_type: action_type@,
                appearance: appearance@,
                flags,
            },
        }
    }
}

pub open spec fn events_view(v: Seq<PlayerEvent>) -> Seq<EventV> {
    v.map_values(|e: PlayerEvent| e.ev())
}

} // verus!
