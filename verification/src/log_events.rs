//! The Player.log lines whose event depends on the line alone.
//!
//! Each `ProcessXxx(...)` line kind has a spec function saying which event
//! the line yields (or `None` when the line is malformed), written over
//! `Seq<char>`, and an exec parser proved to produce exactly that event.

use vstd::prelude::*;
use crate::text::{
    CharClass, contains_str, copy_range, eq_str, find, find_char, parse_i32, parse_signed,
    parse_u32, parse_u64, parse_unsigned, rfind, rfind_char, split, split_char, string_of,
    trim, trim_by, trim_class, trim_end_by, trim_end_class, trim_start_by, trim_start_class,
    trim_ws,
};
use crate::log_fields::{
    after, after_str, args_to_close, args_to_close_exec, extract_quoted_string, line_timestamp,
    parse_skill_block, parse_timestamp, part, part_i32, part_i32_exec, part_trim, part_trim_exec,
    part_u32, part_u32_exec, part_u64, part_u64_exec, quoted_nth, skill_block, trimmed_i32,
    trimmed_i32_exec, trimmed_u32, trimmed_u32_exec, trimmed_u64, trimmed_u64_exec, views,
};
use crate::player_events::{
    AttributeValue, EquipmentSlot, EventV, PlayerEvent, SkillSnapshot, SkillV, attrs_view,
    skills_view, slots_view,
};
use crate::decimal::{f32_literal, is_f32_literal};

verus! {

// ============================================================
// Pieces
// ============================================================

pub open spec fn ov(o: Option<Vec<char>>) -> Option<Seq<char>> {
    match o {
        Some(v) => Some(v@),
        None => None,
    }
}

pub open spec fn ev_opt(o: Option<PlayerEvent>) -> Option<EventV> {
    match o {
        Some(e) => Some(e.ev()),
        None => None,
    }
}

/// The text before and after the first `c`.
pub open spec fn cut(s: Seq<char>, c: char) -> Option<(Seq<char>, Seq<char>)> {
    match find(s, seq![c]) {
        Some(i) => Some((s.take(i), s.skip(i + 1))),
        None => None,
    }
}

pub open spec fn pair_view(o: Option<(Vec<char>, Vec<char>)>) -> Option<(Seq<char>, Seq<char>)> {
    match o {
        Some((a, b)) => Some((a@, b@)),
        None => None,
    }
}

pub fn cut_at(s: &[char], c: char) -> (r: Option<(Vec<char>, Vec<char>)>)
    ensures
        pair_view(r) == cut(s@, c),
{
    match find_char(s, c) {
        Some(i) => {
            proof {
                crate::text::lemma_find_single_pub(s@, c);
            }
            let n = s.len();
            let a = copy_range(s, 0, i);
            let b = copy_range(s, i + 1, n);
            assert(a@ =~= s@.take(i as int));
            assert(b@ =~= s@.skip(i + 1));
            Some((a, b))
        },
        None => None,
    }
}

pub fn after_marker(s: &[char], marker: &str) -> (r: Option<Vec<char>>)
    ensures
        ov(r) == after(s@, marker@),
{
    after_str(s, marker)
}

pub fn args_close(s: &[char], marker: &str) -> (r: Option<Vec<char>>)
    ensures
        ov(r) == args_to_close(s@, marker@),
{
    args_to_close_exec(s, marker)
}

pub fn quoted(text: &[char], n: usize) -> (r: Option<Vec<char>>)
    ensures
        ov(r) == quoted_nth(text@, n as nat),
{
    extract_quoted_string(text, n)
}

pub fn line_ts(line: &[char]) -> (r: Option<Vec<char>>)
    ensures
        ov(r) == line_timestamp(line@),
{
    parse_timestamp(line)
}

/// `s.trim_end_matches(')')`.
pub open spec fn no_close(s: Seq<char>) -> Seq<char> {
    trim_end_by(s, CharClass::Only(')'))
}

/// `parts.get(k)?.trim()` split into the owned pieces.
pub fn split_views(s: &[char], c: char) -> (r: Vec<Vec<char>>)
    ensures
        views(r@) == split(s@, c),
{
    let r = split_char(s, c);
    assert(views(r@) =~= r@.map_values(|v: Vec<char>| v@));
    r
}

// ============================================================
// Simple argument lists
// ============================================================

/// `ProcessScreenText(category, "message")`.
pub open spec fn screen_text_event(line: Seq<char>) -> Option<EventV> {
    match (line_timestamp(line), after(line, "ProcessScreenText("@)) {
        (Some(ts), Some(args)) => match cut(args, ',') {
            Some((c, rest)) => match (find(rest, seq!['"']), rfind(rest, seq!['"'])) {
                (Some(qs), Some(qe)) => if qs + 1 >= qe {
                    None
                } else {
                    Some(
                        EventV::ScreenText {
                            ts,
                            category: trim(c),
                            message: rest.subrange(qs + 1, qe),
                        },
                    )
                },
                _ => None,
            },
            None => None,
        },
        _ => None,
    }
}

pub fn parse_screen_text(line: &[char]) -> (r: Option<PlayerEvent>)
    ensures
        ev_opt(r) == screen_text_event(line@),
{
    let ts = line_ts(line)?;
    let args = after_marker(line, "ProcessScreenText(")?;
    let (c, rest) = cut_at(args.as_slice(), ',')?;
    let qs = find_char(rest.as_slice(), '"')?;
    let qe = rfind_char(rest.as_slice(), '"')?;
    proof {
        crate::text::lemma_find_single_pub(rest@, '"');
        crate::text::lemma_rfind_facts(rest@, seq!['"']);
    }
    if qs >= qe || qe - qs <= 1 {
        return None;
    }
    let category = trim_ws(c.as_slice());
    let message = copy_range(rest.as_slice(), qs + 1, qe);
    Some(
        PlayerEvent::ScreenText {
            timestamp: string_of(ts.as_slice()),
            category: string_of(category.as_slice()),
            message: string_of(message.as_slice()),
        },
    )
}

/// `ProcessEndInteraction(entityId)`.
pub open spec fn end_interaction_event(line: Seq<char>) -> Option<EventV> {
    match (line_timestamp(line), args_to_close(line, "ProcessEndInteraction("@)) {
        (Some(ts), Some(args)) => match trimmed_i32(args) {
            Some(entity_id) => Some(EventV::InteractionEnded { ts, entity_id }),
            None => None,
        },
        _ => None,
    }
}

pub fn parse_end_interaction(line: &[char]) -> (r: Option<PlayerEvent>)
    ensures
        ev_opt(r) == end_interaction_event(line@),
{
    let ts = line_ts(line)?;
    let args = args_close(line, "ProcessEndInteraction(")?;
    let entity_id = trimmed_i32_exec(args.as_slice())?;
    Some(PlayerEvent::InteractionEnded { timestamp: string_of(ts.as_slice()), entity_id })
}

/// `ProcessSetActiveSkills(Skill1, Skill2)`.
pub open spec fn set_active_skills_event(line: Seq<char>) -> Option<EventV> {
    match (line_timestamp(line), args_to_close(line, "ProcessSetActiveSkills("@)) {
        (Some(ts), Some(args)) => {
            let parts = split(args, ',');
            match (part_trim(parts, 0), part_trim(parts, 1)) {
                (Some(skill1), Some(skill2)) => Some(
                    EventV::ActiveSkillsChanged { ts, skill1, skill2 },
                ),
                _ => None,
            }
        },
        _ => None,
    }
}

pub fn parse_set_active_skills(line: &[char]) -> (r: Option<PlayerEvent>)
    ensures
        ev_opt(r) == set_active_skills_event(line@),
{
    let ts = line_ts(line)?;
    let args = args_close(line, "ProcessSetActiveSkills(")?;
    let parts = split_views(args.as_slice(), ',');
    let skill1 = part_trim_exec(&parts, 0)?;
    let skill2 = part_trim_exec(&parts, 1)?;
    Some(
        PlayerEvent::ActiveSkillsChanged {
            timestamp: string_of(ts.as_slice()),
            skill1: string_of(skill1.as_slice()),
            skill2: string_of(skill2.as_slice()),
        },
    )
}

/// `ProcessPlayerMount(entityId, isMounting)`.
pub open spec fn player_mount_event(line: Seq<char>) -> Option<EventV> {
    match (line_timestamp(line), args_to_close(line, "ProcessPlayerMount("@)) {
        (Some(ts), Some(args)) => {
            let parts = split(args, ',');
            match (part_u32(parts, 0), part_trim(parts, 1)) {
                (Some(entity_id), Some(m)) => Some(
                    EventV::MountStateChanged { ts, entity_id, is_mounting: m == "True"@ },
                ),
                _ => None,
            }
        },
        _ => None,
    }
}

pub fn parse_player_mount(line: &[char]) -> (r: Option<PlayerEvent>)
    ensures
        ev_opt(r) == player_mount_event(line@),
{
    let ts = line_ts(line)?;
    let args = args_close(line, "ProcessPlayerMount(")?;
    let parts = split_views(args.as_slice(), ',');
    let entity_id = part_u32_exec(&parts, 0)?;
    let m = part_trim_exec(&parts, 1)?;
    Some(
        PlayerEvent::MountStateChanged {
            timestamp: string_of(ts.as_slice()),
            entity_id,
            is_mounting: eq_str(m.as_slice(), "True"),
        },
    )
}

/// `ProcessUpdateRecipe(recipeId, completionCount)`.
pub open spec fn update_recipe_event(line: Seq<char>) -> Option<EventV> {
    match (line_timestamp(line), args_to_close(line, "ProcessUpdateRecipe("@)) {
        (Some(ts), Some(args)) => {
            let parts = split(args, ',');
            match (part_u32(parts, 0), part_u32(parts, 1)) {
                (Some(recipe_id), Some(completion_count)) => Some(
                    EventV::RecipeUpdated { ts, recipe_id, completion_count },
                ),
                _ => None,
            }
        },
        _ => None,
    }
}

pub fn parse_update_recipe(line: &[char]) -> (r: Option<PlayerEvent>)
    ensures
        ev_opt(r) == update_recipe_event(line@),
{
    let ts = line_ts(line)?;
    let args = args_close(line, "ProcessUpdateRecipe(")?;
    let parts = split_views(args.as_slice(), ',');
    let recipe_id = part_u32_exec(&parts, 0)?;
    let completion_count = part_u32_exec(&parts, 1)?;
    Some(
        PlayerEvent::RecipeUpdated {
            timestamp: string_of(ts.as_slice()),
            recipe_id,
            completion_count,
        },
    )
}

/// `ProcessCombatModeStatus(status, System.Int32[])`.
pub open spec fn combat_mode_event(line: Seq<char>) -> Option<EventV> {
    match (line_timestamp(line), after(line, "ProcessCombatModeStatus("@)) {
        (Some(ts), Some(args)) => match cut(args, ',') {
            Some((s, _)) => if trim(s) == "InCombat"@ {
                Some(EventV::CombatStateChanged { ts, in_combat: true })
            } else if trim(s) == "NotInCombat"@ {
                Some(EventV::CombatStateChanged { ts, in_combat: false })
            } else {
                None
            },
            None => None,
        },
        _ => None,
    }
}

pub fn parse_combat_mode_status(line: &[char]) -> (r: Option<PlayerEvent>)
    ensures
        ev_opt(r) == combat_mode_event(line@),
{
    let ts = line_ts(line)?;
    let args = after_marker(line, "ProcessCombatModeStatus(")?;
    let (s, _) = cut_at(args.as_slice(), ',')?;
    let status = trim_ws(s.as_slice());
    let in_combat = if eq_str(status.as_slice(), "InCombat") {
        true
    } else if eq_str(status.as_slice(), "NotInCombat") {
        false
    } else {
        return None;
    };
    Some(PlayerEvent::CombatStateChanged { timestamp: string_of(ts.as_slice()), in_combat })
}

/// `ProcessVendorUpdateAvailableGold(currentGold, serverId, maxGold)`.
pub open spec fn vendor_gold_event(line: Seq<char>) -> Option<EventV> {
    match (line_timestamp(line), args_to_close(line, "ProcessVendorUpdateAvailableGold("@)) {
        (Some(ts), Some(args)) => {
            let parts = split(args, ',');
            match (part_u32(parts, 0), part_u64(parts, 1), part_u32(parts, 2)) {
                (Some(current_gold), Some(server_id), Some(max_gold)) => Some(
                    EventV::VendorGoldChanged { ts, current_gold, server_id, max_gold },
                ),
                _ => None,
            }
        },
        _ => None,
    }
}

pub fn parse_vendor_update_gold(line: &[char]) -> (r: Option<PlayerEvent>)
    ensures
        ev_opt(r) == vendor_gold_event(line@),
{
    let ts = line_ts(line)?;
    let args = args_close(line, "ProcessVendorUpdateAvailableGold(")?;
    let parts = split_views(args.as_slice(), ',');
    let current_gold = part_u32_exec(&parts, 0)?;
    let server_id = part_u64_exec(&parts, 1)?;
    let max_gold = part_u32_exec(&parts, 2)?;
    Some(
        PlayerEvent::VendorGoldChanged {
            timestamp: string_of(ts.as_slice()),
            current_gold,
            server_id,
            max_gold,
        },
    )
}

/// `ProcessSetCelestialInfo(Phase)`; an empty phase yields nothing.
pub open spec fn celestial_event(line: Seq<char>) -> Option<EventV> {
    match (line_timestamp(line), args_to_close(line, "ProcessSetCelestialInfo("@)) {
        (Some(ts), Some(args)) => if trim(args).len() == 0 {
            None
        } else {
            Some(EventV::MoonPhaseChanged { ts, phase: trim(args) })
        },
        _ => None,
    }
}

pub fn parse_celestial_info(line: &[char]) -> (r: Option<PlayerEvent>)
    ensures
        ev_opt(r) == celestial_event(line@),
{
    let ts = line_ts(line)?;
    let args = args_close(line, "ProcessSetCelestialInfo(")?;
    let phase = trim_ws(args.as_slice());
    if phase.len() == 0 {
        return None;
    }
    Some(
        PlayerEvent::MoonPhaseChanged {
            timestamp: string_of(ts.as_slice()),
            phase: string_of(phase.as_slice()),
        },
    )
}

/// `ProcessRemoveEffects(entityId, System.Int32[])`.
pub open spec fn remove_effects_event(line: Seq<char>) -> Option<EventV> {
    match (line_timestamp(line), after(line, "ProcessRemoveEffects("@)) {
        (Some(ts), Some(args)) => match cut(args, ',') {
            Some((e, _)) => match trimmed_u32(e) {
                Some(entity_id) => Some(EventV::EffectsRemoved { ts, entity_id }),
                None => None,
            },
            None => None,
        },
        _ => None,
    }
}

pub fn parse_remove_effects(line: &[char]) -> (r: Option<PlayerEvent>)
    ensures
        ev_opt(r) == remove_effects_event(line@),
{
    let ts = line_ts(line)?;
    let args = after_marker(line, "ProcessRemoveEffects(")?;
    let (e, _) = cut_at(args.as_slice(), ',')?;
    let entity_id = trimmed_u32_exec(e.as_slice())?;
    Some(PlayerEvent::EffectsRemoved { timestamp: string_of(ts.as_slice()), entity_id })
}

/// `ProcessLoadRecipes(...)`: a bare signal.
pub open spec fn load_recipes_event(line: Seq<char>) -> Option<EventV> {
    match (line_timestamp(line), find(line, "ProcessLoadRecipes("@)) {
        (Some(ts), Some(_)) => Some(EventV::RecipesLoaded { ts }),
        _ => None,
    }
}

pub fn parse_load_recipes(line: &[char]) -> (r: Option<PlayerEvent>)
    ensures
        ev_opt(r) == load_recipes_event(line@),
{
    let ts = line_ts(line)?;
    let _ = after_marker(line, "ProcessLoadRecipes(")?;
    Some(PlayerEvent::RecipesLoaded { timestamp: string_of(ts.as_slice()) })
}


// ============================================================
// Items, vendors and storage
// ============================================================

/// `s.parse::<u64>()` (no trimming).
pub open spec fn num_u64(s: Seq<char>) -> Option<u64> {
    match parse_unsigned(s, u64::MAX as nat) {
        Some(v) => Some(v as u64),
        None => None,
    }
}

/// `s.parse::<u32>()` (no trimming).
pub open spec fn num_u32(s: Seq<char>) -> Option<u32> {
    match parse_unsigned(s, u32::MAX as nat) {
        Some(v) => Some(v as u32),
        None => None,
    }
}

/// Stack size held in an encoded item value: the high 16 bits, plus one.
pub open spec fn stack_of(encoded: u32) -> u32 {
    (encoded / 65536 + 1) as u32
}

/// Item type id held in an encoded item value: the low 16 bits.
pub open spec fn type_of(encoded: u32) -> u16 {
    (encoded % 65536) as u16
}

pub fn decode_item_value(encoded: u32) -> (r: (u32, u16))
    ensures
        r == (stack_of(encoded), type_of(encoded)),
{
    (encoded / 65536 + 1, (encoded % 65536) as u16)
}

/// `ProcessVendorAddItem(price, InternalName(instanceId), isFromBuyback)`.
pub open spec fn vendor_add_item_event(line: Seq<char>) -> Option<EventV> {
    match (line_timestamp(line), after(line, "ProcessVendorAddItem("@)) {
        (Some(ts), Some(args)) => match cut(args, ',') {
            Some((p, rest)) => match (trimmed_u32(p), cut(rest, '(')) {
                (Some(price), Some((nm, r2))) => match cut(r2, ')') {
                    Some((idt, after_id)) => match (num_u64(idt), cut(after_id, ',')) {
                        (Some(instance_id), Some((_, b))) => Some(
                            EventV::VendorSold {
                                ts,
                                price,
                                item_name: trim(nm),
                                instance_id,
                                is_buyback: no_close(trim(b)) == "True"@,
                            },
                        ),
                        _ => None,
                    },
                    None => None,
                },
                _ => None,
            },
            None => None,
        },
        _ => None,
    }
}

pub fn parse_vendor_add_item(line: &[char]) -> (r: Option<PlayerEvent>)
    ensures
        ev_opt(r) == vendor_add_item_event(line@),
{
    let ts = line_ts(line)?;
    let args = after_marker(line, "ProcessVendorAddItem(")?;
    let (p, rest) = cut_at(args.as_slice(), ',')?;
    let price = trimmed_u32_exec(p.as_slice())?;
    let (nm, r2) = cut_at(rest.as_slice(), '(')?;
    let (idt, after_id) = cut_at(r2.as_slice(), ')')?;
    let instance_id = parse_u64(idt.as_slice())?;
    let (_, b) = cut_at(after_id.as_slice(), ',')?;
    let tb = trim_ws(b.as_slice());
    let flag = trim_end_class(tb.as_slice(), CharClass::Only(')'));
    let item_name = trim_ws(nm.as_slice());
    Some(
        PlayerEvent::VendorSold {
            timestamp: string_of(ts.as_slice()),
            price,
            item_name: string_of(item_name.as_slice()),
            instance_id,
            is_buyback: eq_str(flag.as_slice(), "True"),
        },
    )
}

/// `ProcessVendorUpdateItem(instanceId, encodedValue, price)`.
pub open spec fn vendor_update_item_event(line: Seq<char>) -> Option<EventV> {
    match (line_timestamp(line), args_to_close(line, "ProcessVendorUpdateItem("@)) {
        (Some(ts), Some(args)) => {
            let parts = split(args, ',');
            match (part_u64(parts, 0), part_u32(parts, 1), part_u32(parts, 2)) {
                (Some(instance_id), Some(enc), Some(price)) => Some(
                    EventV::VendorStackUpdated {
                        ts,
                        instance_id,
                        item_type_id: type_of(enc),
                        new_stack_size: stack_of(enc),
                        price,
                    },
                ),
                _ => None,
            }
        },
        _ => None,
    }
}

pub fn parse_vendor_update_item(line: &[char]) -> (r: Option<PlayerEvent>)
    ensures
        ev_opt(r) == vendor_update_item_event(line@),
{
    let ts = line_ts(line)?;
    let args = args_close(line, "ProcessVendorUpdateItem(")?;
    let parts = split_views(args.as_slice(), ',');
    let instance_id = part_u64_exec(&parts, 0)?;
    let enc = part_u32_exec(&parts, 1)?;
    let price = part_u32_exec(&parts, 2)?;
    let (new_stack_size, item_type_id) = decode_item_value(enc);
    Some(
        PlayerEvent::VendorStackUpdated {
            timestamp: string_of(ts.as_slice()),
            instance_id,
            item_type_id,
            new_stack_size,
            price,
        },
    )
}

/// `ProcessAddToStorageVault(npcId, -1, slot, InternalName(instanceId))`,
/// with the vault key taken from the current interaction.
pub open spec fn add_to_storage_event(line: Seq<char>, vault_key: Option<Seq<char>>) -> Option<
    EventV,
> {
    match (line_timestamp(line), after(line, "ProcessAddToStorageVault("@)) {
        (Some(ts), Some(args)) => {
            let parts = crate::text::splitn(args, ',', 4);
            match (part_u32(parts, 0), part_i32(parts, 2), part_trim(parts, 3)) {
                (Some(npc_id), Some(slot), Some(np)) => match cut(np, '(') {
                    Some((item_name, r)) => match cut(r, ')') {
                        Some((idt, _)) => match num_u64(idt) {
                            Some(instance_id) => Some(
                                EventV::StorageDeposit {
                                    ts,
                                    npc_id,
                                    vault_key,
                                    slot,
                                    item_name,
                                    instance_id,
                                },
                            ),
                            None => None,
                        },
                        None => None,
                    },
                    None => None,
                },
                _ => None,
            }
        },
        _ => None,
    }
}

pub fn parse_add_to_storage(line: &[char], vault_key: Option<String>) -> (r: Option<PlayerEvent>)
    ensures
        ev_opt(r) == add_to_storage_event(line@, crate::player_events::ostr(vault_key)),
{
    let ts = line_ts(line)?;
    let args = after_marker(line, "ProcessAddToStorageVault(")?;
    let parts = crate::text::splitn_char(args.as_slice(), ',', 4);
    assert(views(parts@) =~= parts@.map_values(|v: Vec<char>| v@));
    let npc_id = part_u32_exec(&parts, 0)?;
    let slot = part_i32_exec(&parts, 2)?;
    let np = part_trim_exec(&parts, 3)?;
    let (item_name, r) = cut_at(np.as_slice(), '(')?;
    let (idt, _) = cut_at(r.as_slice(), ')')?;
    let instance_id = parse_u64(idt.as_slice())?;
    Some(
        PlayerEvent::StorageDeposit {
            timestamp: string_of(ts.as_slice()),
            npc_id,
            vault_key,
            slot,
            item_name: string_of(item_name.as_slice()),
            instance_id,
        },
    )
}

/// Fields of `ProcessRemoveFromStorageVault(npcId, -1, instanceId, quantity)`:
/// timestamp, npc id, instance id and quantity.
pub open spec fn remove_storage_fields(line: Seq<char>) -> Option<(Seq<char>, u32, u64, u32)> {
    match (line_timestamp(line), args_to_close(line, "ProcessRemoveFromStorageVault("@)) {
        (Some(ts), Some(args)) => {
            let parts = split(args, ',');
            match (part_u32(parts, 0), part_u64(parts, 2), part_u32(parts, 3)) {
                (Some(npc), Some(inst), Some(qty)) => Some((ts, npc, inst, qty)),
                _ => None,
            }
        },
        _ => None,
    }
}

pub fn remove_storage_fields_exec(line: &[char]) -> (r: Option<(Vec<char>, u32, u64, u32)>)
    ensures
        match r {
            Some((ts, npc, inst, qty)) => remove_storage_fields(line@) == Some((ts@, npc, inst, qty)),
            None => remove_storage_fields(line@) is None,
        },
{
    let ts = line_ts(line)?;
    let args = args_close(line, "ProcessRemoveFromStorageVault(")?;
    let parts = split_views(args.as_slice(), ',');
    let npc = part_u32_exec(&parts, 0)?;
    let inst = part_u64_exec(&parts, 2)?;
    let qty = part_u32_exec(&parts, 3)?;
    Some((ts, npc, inst, qty))
}

/// Fields of `ProcessAddItem(InternalName(instanceId), slotIndex, isNew)`:
/// timestamp, item name, instance id, slot index and the `isNew` flag.
pub open spec fn add_item_fields(line: Seq<char>) -> Option<(Seq<char>, Seq<char>, u64, i32, bool)> {
    match (line_timestamp(line), after(line, "ProcessAddItem("@)) {
        (Some(ts), Some(args)) => match cut(args, '(') {
            Some((name, r)) => match cut(r, ')') {
                Some((idt, after_name)) => {
                    let parts = split(after_name, ',');
                    match (num_u64(idt), part_i32(parts, 1), part_trim(parts, 2)) {
                        (Some(inst), Some(slot), Some(f)) => Some(
                            (ts, name, inst, slot, no_close(f) == "True"@),
                        ),
                        _ => None,
                    }
                },
                None => None,
            },
            None => None,
        },
        _ => None,
    }
}

pub fn add_item_fields_exec(line: &[char]) -> (r: Option<(Vec<char>, Vec<char>, u64, i32, bool)>)
    ensures
        match r {
            Some((ts, name, inst, slot, is_new)) => add_item_fields(line@) == Some(
                (ts@, name@, inst, slot, is_new),
            ),
            None => add_item_fields(line@) is None,
        },
{
    let ts = line_ts(line)?;
    let args = after_marker(line, "ProcessAddItem(")?;
    let (name, r) = cut_at(args.as_slice(), '(')?;
    let (idt, after_name) = cut_at(r.as_slice(), ')')?;
    let parts = split_views(after_name.as_slice(), ',');
    let inst = parse_u64(idt.as_slice())?;
    let slot = part_i32_exec(&parts, 1)?;
    let f = part_trim_exec(&parts, 2)?;
    let flag = trim_end_class(f.as_slice(), CharClass::Only(')'));
    Some((ts, name, inst, slot, eq_str(flag.as_slice(), "True")))
}

/// Fields of `ProcessUpdateItemCode(instanceId, encodedValue, fromServer)`:
/// timestamp, instance id, encoded value and the `fromServer` flag.
pub open spec fn update_item_fields(line: Seq<char>) -> Option<(Seq<char>, u64, u32, bool)> {
    match (line_timestamp(line), args_to_close(line, "ProcessUpdateItemCode("@)) {
        (Some(ts), Some(args)) => {
            let parts = split(args, ',');
            match (part_u64(parts, 0), part_u32(parts, 1), part_trim(parts, 2)) {
                (Some(inst), Some(enc), Some(f)) => Some((ts, inst, enc, f == "True"@)),
                _ => None,
            }
        },
        _ => None,
    }
}

pub fn update_item_fields_exec(line: &[char]) -> (r: Option<(Vec<char>, u64, u32, bool)>)
    ensures
        match r {
            Some((ts, inst, enc, fs)) => update_item_fields(line@) == Some((ts@, inst, enc, fs)),
            None => update_item_fields(line@) is None,
        },
{
    let ts = line_ts(line)?;
    let args = args_close(line, "ProcessUpdateItemCode(")?;
    let parts = split_views(args.as_slice(), ',');
    let inst = part_u64_exec(&parts, 0)?;
    let enc = part_u32_exec(&parts, 1)?;
    let f = part_trim_exec(&parts, 2)?;
    Some((ts, inst, enc, eq_str(f.as_slice(), "True")))
}

/// Fields of `ProcessDeleteItem(instanceId)`: the timestamp (empty when the
/// line has none) and the instance id.
pub open spec fn delete_item_fields(line: Seq<char>) -> Option<(Seq<char>, u64)> {
    let ts = match line_timestamp(line) {
        Some(t) => t,
        None => Seq::empty(),
    };
    match args_to_close(line, "ProcessDeleteItem("@) {
        Some(args) => match trimmed_u64(args) {
            Some(inst) => Some((ts, inst)),
            None => None,
        },
        None => None,
    }
}

pub fn delete_item_fields_exec(line: &[char]) -> (r: Option<(Vec<char>, u64)>)
    ensures
        match r {
            Some((ts, inst)) => delete_item_fields(line@) == Some((ts@, inst)),
            None => delete_item_fields(line@) is None,
        },
{
    let ts = match line_ts(line) {
        Some(t) => t,
        None => Vec::new(),
    };
    let args = args_close(line, "ProcessDeleteItem(")?;
    let inst = trimmed_u64_exec(args.as_slice())?;
    assert(ts@ == match line_timestamp(line@) {
        Some(t) => t,
        None => Seq::<char>::empty(),
    });
    Some((ts, inst))
}

// ============================================================
// World and character state
// ============================================================

/// `ProcessSetWeather("WeatherName", boolFlag)`.
pub open spec fn weather_event(line: Seq<char>) -> Option<EventV> {
    match (line_timestamp(line), after(line, "ProcessSetWeather("@)) {
        (Some(ts), Some(args)) => match (quoted_nth(args, 0), rfind(args, seq!['"'])) {
            (Some(weather_name), Some(q)) => match cut(args.skip(q + 1), ',') {
                Some((_, b)) => Some(
                    EventV::WeatherChanged {
                        ts,
                        weather_name,
                        is_active: no_close(trim(b)) == "True"@,
                    },
                ),
                None => None,
            },
            _ => None,
        },
        _ => None,
    }
}

pub fn parse_set_weather(line: &[char]) -> (r: Option<PlayerEvent>)
    ensures
        ev_opt(r) == weather_event(line@),
{
    let ts = line_ts(line)?;
    let args = after_marker(line, "ProcessSetWeather(")?;
    let weather_name = quoted(args.as_slice(), 0)?;
    let q = rfind_char(args.as_slice(), '"')?;
    proof {
        crate::text::lemma_rfind_facts(args@, seq!['"']);
    }
    let n = args.len();
    let rest = copy_range(args.as_slice(), q + 1, n);
    assert(rest@ =~= args@.skip(q + 1));
    let (_, b) = cut_at(rest.as_slice(), ',')?;
    let tb = trim_ws(b.as_slice());
    let flag = trim_end_class(tb.as_slice(), CharClass::Only(')'));
    Some(
        PlayerEvent::WeatherChanged {
            timestamp: string_of(ts.as_slice()),
            weather_name: string_of(weather_name.as_slice()),
            is_active: eq_str(flag.as_slice(), "True"),
        },
    )
}

/// The skills of every `{...}` block of `ProcessLoadSkills(...)`, in order;
/// blocks that do not parse are skipped.
pub open spec fn skill_blocks(rest: Seq<char>) -> Seq<SkillV>
    decreases rest.len(),
{
    match find(rest, seq!['{']) {
        None => Seq::empty(),
        Some(a) => if 0 <= a < rest.len() {
            match find(rest.skip(a), seq!['}']) {
                None => Seq::empty(),
                Some(b) => if 0 <= b < rest.len() - a {
                    let block = rest.subrange(a, a + b + 1);
                    let tail = skill_blocks(rest.skip(a + b + 1));
                    match skill_block(block) {
                        Some(s) => seq![s] + tail,
                        None => tail,
                    }
                } else {
                    Seq::empty()
                },
            }
        } else {
            Seq::empty()
        },
    }
}

/// `ProcessLoadSkills({type=X,raw=R,...}, ...)`; nothing when no block parses.
pub open spec fn load_skills_event(line: Seq<char>) -> Option<EventV> {
    match (line_timestamp(line), after(line, "ProcessLoadSkills("@)) {
        (Some(ts), Some(rest)) => if skill_blocks(rest).len() == 0 {
            None
        } else {
            Some(EventV::SkillsLoaded { ts, skills: skill_blocks(rest) })
        },
        _ => None,
    }
}

fn skill_blocks_from(rest: &[char], pos: usize) -> (r: Vec<SkillSnapshot>)
    requires
        pos <= rest@.len(),
    ensures
        skills_view(r@) == skill_blocks(rest@.skip(pos as int)),
    decreases rest@.len() - pos,
{
    let ghost t = rest@.skip(pos as int);
    let n = rest.len();
    let tail = copy_range(rest, pos, n);
    assert(tail@ =~= t);
    let a = match find_char(tail.as_slice(), '{') {
        Some(a) => a,
        None => {
            return Vec::new();
        },
    };
    proof {
        crate::text::lemma_find_single_pub(t, '{');
    }
    let from_a = copy_range(rest, pos + a, n);
    assert(from_a@ =~= t.skip(a as int));
    let b = match find_char(from_a.as_slice(), '}') {
        Some(b) => b,
        None => {
            return Vec::new();
        },
    };
    proof {
        crate::text::lemma_find_single_pub(from_a@, '}');
    }
    let block = copy_range(rest, pos + a, pos + a + b + 1);
    assert(block@ =~= t.subrange(a as int, a + b + 1));
    assert(t.skip(a + b + 1) =~= rest@.skip(pos + a + b + 1));
    let mut out: Vec<SkillSnapshot> = Vec::new();
    match parse_skill_block(block.as_slice()) {
        Some(s) => {
            out.push(s);
        },
        None => {},
    }
    let mut more = skill_blocks_from(rest, pos + a + b + 1);
    let ghost head = out@;
    let ghost m = more@;
    out.append(&mut more);
    assert(skills_view(out@) =~= skills_view(head) + skills_view(m));
    out
}

pub fn parse_load_skills(line: &[char]) -> (r: Option<PlayerEvent>)
    ensures
        ev_opt(r) == load_skills_event(line@),
{
    let ts = line_ts(line)?;
    let rest = after_marker(line, "ProcessLoadSkills(")?;
    assert(rest@.skip(0) =~= rest@);
    let skills = skill_blocks_from(rest.as_slice(), 0);
    if skills.len() == 0 {
        return None;
    }
    Some(PlayerEvent::SkillsLoaded { timestamp: string_of(ts.as_slice()), skills })
}


// ============================================================
// Argument lists closed by the line's last `')'`
// ============================================================

pub fn find_marker(line: &[char], marker: &str) -> (r: Option<usize>)
    ensures
        match r {
            Some(k) => find(line@, marker@) == Some(k as int),
            None => find(line@, marker@) is None,
        },
{
    let m = crate::text::chars_of(marker);
    crate::text::find_seq(line, m.as_slice())
}

/// The lines on which slicing `line[args_start..line.rfind(')')]` is in
/// bounds, for a stamped line holding `marker`: its last `')'` does not
/// come before the arguments start.
pub open spec fn rparen_ok(line: Seq<char>, marker: Seq<char>) -> bool {
    line_timestamp(line) is Some ==> match (find(line, marker), rfind(line, seq![')'])) {
        (Some(i), Some(e)) => i + marker.len() <= e,
        _ => true,
    }
}

/// `line[args_start..line.rfind(')')]` for a stamped line holding `marker`.
pub open spec fn args_to_last_close(line: Seq<char>, marker: Seq<char>) -> Option<Seq<char>> {
    match (find(line, marker), rfind(line, seq![')'])) {
        (Some(i), Some(e)) => Some(line.subrange(i + marker.len(), e)),
        _ => None,
    }
}

fn args_last_close(line: &[char], marker: &str) -> (r: Option<Vec<char>>)
    requires
        line_timestamp(line@) is Some,
        rparen_ok(line@, marker@),
    ensures
        ov(r) == args_to_last_close(line@, marker@),
{
    let i = find_marker(line, marker)?;
    let e = rfind_char(line, ')')?;
    proof {
        crate::text::lemma_find_facts(line@, marker@);
        crate::text::lemma_rfind_facts(line@, seq![')']);
    }
    let m = crate::text::chars_of(marker);
    Some(copy_range(line, i + m.len(), e))
}

/// `ProcessStartInteraction(entityId, interactionType, distance, canInteract, "NPC_Name")`.
pub open spec fn start_interaction_event(line: Seq<char>) -> Option<EventV> {
    match (line_timestamp(line), args_to_last_close(line, "ProcessStartInteraction("@)) {
        (Some(ts), Some(args)) => {
            let parts = crate::text::splitn(args, ',', 5);
            match (part_u32(parts, 0), part_u32(parts, 1), part_trim(parts, 4)) {
                (Some(entity_id), Some(interaction_type), Some(raw)) => Some(
                    EventV::InteractionStarted {
                        ts,
                        entity_id,
                        interaction_type,
                        npc_name: trim_by(raw, CharClass::Only('"')),
                    },
                ),
                _ => None,
            }
        },
        _ => None,
    }
}

pub fn parse_start_interaction(line: &[char]) -> (r: Option<PlayerEvent>)
    requires
        rparen_ok(line@, "ProcessStartInteraction("@),
    ensures
        ev_opt(r) == start_interaction_event(line@),
{
    let ts = line_ts(line)?;
    let args = args_last_close(line, "ProcessStartInteraction(")?;
    let parts = crate::text::splitn_char(args.as_slice(), ',', 5);
    assert(views(parts@) =~= parts@.map_values(|v: Vec<char>| v@));
    let entity_id = part_u32_exec(&parts, 0)?;
    let interaction_type = part_u32_exec(&parts, 1)?;
    let raw = part_trim_exec(&parts, 4)?;
    let name = trim_class(raw.as_slice(), CharClass::Only('"'));
    Some(
        PlayerEvent::InteractionStarted {
            timestamp: string_of(ts.as_slice()),
            entity_id,
            interaction_type,
            npc_name: string_of(name.as_slice()),
        },
    )
}

/// `ProcessDeltaFavor(npcId, "NPC_Name", delta, isGift)`; the delta must be
/// a decimal literal.
pub open spec fn delta_favor_event(line: Seq<char>) -> Option<EventV> {
    match (line_timestamp(line), args_to_last_close(line, "ProcessDeltaFavor("@)) {
        (Some(ts), Some(args)) => match cut(args, ',') {
            Some((idp, rest)) => match (trimmed_u32(idp), cut(rest, '"')) {
                (Some(npc_id), Some((_, r2))) => match cut(r2, '"') {
                    Some((npc_name, after_name)) => {
                        let parts = split(after_name, ',');
                        match (part_trim(parts, 1), part_trim(parts, 2)) {
                            (Some(d), Some(g)) => if f32_literal(d) {
                                Some(
                                    EventV::FavorChanged {
                                        ts,
                                        npc_id,
                                        npc_name,
                                        delta: d,
                                        is_gift: no_close(g) == "True"@,
                                    },
                                )
                            } else {
                                None
                            },
                            _ => None,
                        }
                    },
                    None => None,
                },
                _ => None,
            },
            None => None,
        },
        _ => None,
    }
}

pub fn parse_delta_favor(line: &[char]) -> (r: Option<PlayerEvent>)
    requires
        rparen_ok(line@, "ProcessDeltaFavor("@),
    ensures
        ev_opt(r) == delta_favor_event(line@),
{
    let ts = line_ts(line)?;
    let args = args_last_close(line, "ProcessDeltaFavor(")?;
    let (idp, rest) = cut_at(args.as_slice(), ',')?;
    let npc_id = trimmed_u32_exec(idp.as_slice())?;
    let (_, r2) = cut_at(rest.as_slice(), '"')?;
    let (npc_name, after_name) = cut_at(r2.as_slice(), '"')?;
    let parts = split_views(after_name.as_slice(), ',');
    let d = part_trim_exec(&parts, 1)?;
    let g = part_trim_exec(&parts, 2)?;
    if !is_f32_literal(d.as_slice()) {
        return None;
    }
    let flag = trim_end_class(g.as_slice(), CharClass::Only(')'));
    Some(
        PlayerEvent::FavorChanged {
            timestamp: string_of(ts.as_slice()),
            npc_id,
            npc_name: string_of(npc_name.as_slice()),
            delta: string_of(d.as_slice()),
            is_gift: eq_str(flag.as_slice(), "True"),
        },
    )
}

/// `ProcessLoadAbilities(System.Int32[], Skill1, Skill2, AbilityBarContents[])`.
pub open spec fn load_abilities_event(line: Seq<char>) -> Option<EventV> {
    match (line_timestamp(line), args_to_last_close(line, "ProcessLoadAbilities("@)) {
        (Some(ts), Some(args)) => {
            let parts = split(args, ',');
            if parts.len() < 4 {
                None
            } else {
                Some(EventV::AbilitiesLoaded { ts, skill1: trim(parts[1]), skill2: trim(parts[2]) })
            }
        },
        _ => None,
    }
}

pub fn parse_load_abilities(line: &[char]) -> (r: Option<PlayerEvent>)
    requires
        rparen_ok(line@, "ProcessLoadAbilities("@),
    ensures
        ev_opt(r) == load_abilities_event(line@),
{
    let ts = line_ts(line)?;
    let args = args_last_close(line, "ProcessLoadAbilities(")?;
    let parts = split_views(args.as_slice(), ',');
    if parts.len() < 4 {
        return None;
    }
    let skill1 = part_trim_exec(&parts, 1)?;
    let skill2 = part_trim_exec(&parts, 2)?;
    Some(
        PlayerEvent::AbilitiesLoaded {
            timestamp: string_of(ts.as_slice()),
            skill1: string_of(skill1.as_slice()),
            skill2: string_of(skill2.as_slice()),
        },
    )
}

// ============================================================
// Delay loops, books and strings
// ============================================================

/// Fields of `ProcessDoDelayLoop(duration, actionType, "label", entityId,
/// abortCondition)`: timestamp, duration literal, action type, label,
/// entity id and abort condition. The duration must be a decimal literal.
pub open spec fn delay_loop_fields(line: Seq<char>) -> Option<
    (Seq<char>, Seq<char>, Seq<char>, Seq<char>, u32, Seq<char>),
> {
    match (line_timestamp(line), after(line, "ProcessDoDelayLoop("@)) {
        (Some(ts), Some(args)) => match cut(args, ',') {
            Some((d, rest)) => match (cut(rest, ','), cut(rest, '"')) {
                (Some((at, _)), Some((_, r2))) => match cut(r2, '"') {
                    Some((label, after_label)) => {
                        let parts = split(after_label, ',');
                        match (part_u32(parts, 1), part_trim(parts, 2)) {
                            (Some(entity_id), Some(ab)) => if f32_literal(trim(d)) {
                                Some((ts, trim(d), trim(at), label, entity_id, no_close(ab)))
                            } else {
                                None
                            },
                            _ => None,
                        }
                    },
                    None => None,
                },
                _ => None,
            },
            None => None,
        },
        _ => None,
    }
}

pub fn delay_loop_fields_exec(line: &[char]) -> (r: Option<
    (Vec<char>, Vec<char>, Vec<char>, Vec<char>, u32, Vec<char>),
>)
    ensures
        match r {
            Some((ts, d, at, label, entity_id, ab)) => delay_loop_fields(line@) == Some(
                (ts@, d@, at@, label@, entity_id, ab@),
            ),
            None => delay_loop_fields(line@) is None,
        },
{
    let ts = line_ts(line)?;
    let args = after_marker(line, "ProcessDoDelayLoop(")?;
    let (d, rest) = cut_at(args.as_slice(), ',')?;
    let (at, _) = cut_at(rest.as_slice(), ',')?;
    let (_, r2) = cut_at(rest.as_slice(), '"')?;
    let (label, after_label) = cut_at(r2.as_slice(), '"')?;
    let parts = split_views(after_label.as_slice(), ',');
    let entity_id = part_u32_exec(&parts, 1)?;
    let ab = part_trim_exec(&parts, 2)?;
    let dt = trim_ws(d.as_slice());
    if !is_f32_literal(dt.as_slice()) {
        return None;
    }
    let at = trim_ws(at.as_slice());
    let ab = trim_end_class(ab.as_slice(), CharClass::Only(')'));
    Some((ts, dt, at, label, entity_id, ab))
}

pub open spec fn in_quotes(t: Seq<char>) -> Seq<char> {
    seq!['"'] + t + seq!['"']
}

/// The text after the first `"t"` of `s`.
pub open spec fn after_quoted(s: Seq<char>, t: Seq<char>) -> Option<Seq<char>> {
    match find(s, in_quotes(t)) {
        Some(p) => Some(s.skip(p + t.len() + 2)),
        None => None,
    }
}

fn after_quoted_exec(s: &[char], t: &[char]) -> (r: Option<Vec<char>>)
    ensures
        ov(r) == after_quoted(s@, t@),
{
    let mut w: Vec<char> = Vec::new();
    w.push('"');
    let mut i: usize = 0;
    while i < t.len()
        invariant
            i <= t@.len(),
            w@ == seq!['"'] + t@.take(i as int),
        decreases t.len() - i,
    {
        w.push(t[i]);
        assert(t@.take(i as int).push(t@[i as int]) =~= t@.take(i + 1));
        assert(seq!['"'] + t@.take(i as int).push(t@[i as int]) =~= (seq!['"'] + t@.take(
            i as int,
        )).push(t@[i as int]));
        i += 1;
    }
    w.push('"');
    assert(t@.take(t@.len() as int) =~= t@);
    assert(w@ =~= in_quotes(t@));
    let p = crate::text::find_seq(s, w.as_slice())?;
    proof {
        crate::text::lemma_find_facts(s@, w@);
    }
    let n = s.len();
    Some(copy_range(s, p + t.len() + 2, n))
}

/// `ProcessBook("title", "content", "bookType", ...)`.
pub open spec fn book_event(line: Seq<char>) -> Option<EventV> {
    match (line_timestamp(line), after(line, "ProcessBook("@)) {
        (Some(ts), Some(args)) => match quoted_nth(args, 0) {
            Some(title) => match after_quoted(args, title) {
                Some(a1) => match quoted_nth(a1, 0) {
                    Some(content) => match after_quoted(a1, content) {
                        Some(a2) => match quoted_nth(a2, 0) {
                            Some(book_type) => Some(
                                EventV::BookOpened { ts, title, content, book_type },
                            ),
                            None => None,
                        },
                        None => None,
                    },
                    None => None,
                },
                None => None,
            },
            None => None,
        },
        _ => None,
    }
}

pub fn parse_book(line: &[char]) -> (r: Option<PlayerEvent>)
    ensures
        ev_opt(r) == book_event(line@),
{
    let ts = line_ts(line)?;
    let args = after_marker(line, "ProcessBook(")?;
    let title = quoted(args.as_slice(), 0)?;
    let a1 = after_quoted_exec(args.as_slice(), title.as_slice())?;
    let content = quoted(a1.as_slice(), 0)?;
    let a2 = after_quoted_exec(a1.as_slice(), content.as_slice())?;
    let book_type = quoted(a2.as_slice(), 0)?;
    Some(
        PlayerEvent::BookOpened {
            timestamp: string_of(ts.as_slice()),
            title: string_of(title.as_slice()),
            content: string_of(content.as_slice()),
            book_type: string_of(book_type.as_slice()),
        },
    )
}

/// The `ProcessSetString` keys worth keeping.
pub open spec fn known_string_key(k: Seq<char>) -> bool {
    k == "NOTEPAD"@ || k == "NOTEPAD_TAB_1"@ || k == "NOTEPAD_TAB_2"@ || k == "NOTEPAD_TAB_3"@
        || k == "NOTEPAD_TAB_4"@ || k == "NOTEPAD_TAB_NAMES"@ || k == "FRIEND_STATUS"@ || k
        == "PUBLIC_STATUS"@ || k == "HUNTING_GROUP_TITLE"@
}

/// `ProcessSetString(KEY, "value")`, for the known keys only.
pub open spec fn set_string_event(line: Seq<char>) -> Option<EventV> {
    match (line_timestamp(line), after(line, "ProcessSetString("@)) {
        (Some(ts), Some(args)) => match cut(args, ',') {
            Some((k, _)) => if known_string_key(trim(k)) {
                match quoted_nth(args, 0) {
                    Some(value) => Some(EventV::PlayerStringUpdated { ts, key: trim(k), value }),
                    None => None,
                }
            } else {
                None
            },
            None => None,
        },
        _ => None,
    }
}

pub fn parse_set_string(line: &[char]) -> (r: Option<PlayerEvent>)
    ensures
        ev_opt(r) == set_string_event(line@),
{
    let ts = line_ts(line)?;
    let args = after_marker(line, "ProcessSetString(")?;
    let (k, _) = cut_at(args.as_slice(), ',')?;
    let key = trim_ws(k.as_slice());
    let ks = key.as_slice();
    if !(eq_str(ks, "NOTEPAD") || eq_str(ks, "NOTEPAD_TAB_1") || eq_str(ks, "NOTEPAD_TAB_2")
        || eq_str(ks, "NOTEPAD_TAB_3") || eq_str(ks, "NOTEPAD_TAB_4") || eq_str(
        ks,
        "NOTEPAD_TAB_NAMES",
    ) || eq_str(ks, "FRIEND_STATUS") || eq_str(ks, "PUBLIC_STATUS") || eq_str(
        ks,
        "HUNTING_GROUP_TITLE",
    )) {
        return None;
    }
    let value = quoted(args.as_slice(), 0)?;
    Some(
        PlayerEvent::PlayerStringUpdated {
            timestamp: string_of(ts.as_slice()),
            key: string_of(ks),
            value: string_of(value.as_slice()),
        },
    )
}

/// `ProcessGuildGeneralInfo(guildId, "GuildName", "motd")`; a missing motd
/// reads as empty.
pub open spec fn guild_event(line: Seq<char>) -> Option<EventV> {
    match (line_timestamp(line), after(line, "ProcessGuildGeneralInfo("@)) {
        (Some(ts), Some(args)) => match cut(args, ',') {
            Some((g, _)) => match (trimmed_u32(g), quoted_nth(args, 0)) {
                (Some(guild_id), Some(guild_name)) => Some(
                    EventV::GuildInfoLoaded {
                        ts,
                        guild_id,
                        guild_name,
                        motd: match quoted_nth(args, 1) {
                            Some(m) => m,
                            None => Seq::empty(),
                        },
                    },
                ),
                _ => None,
            },
            None => None,
        },
        _ => None,
    }
}

pub fn parse_guild_general_info(line: &[char]) -> (r: Option<PlayerEvent>)
    ensures
        ev_opt(r) == guild_event(line@),
{
    let ts = line_ts(line)?;
    let args = after_marker(line, "ProcessGuildGeneralInfo(")?;
    let (g, _) = cut_at(args.as_slice(), ',')?;
    let guild_id = trimmed_u32_exec(g.as_slice())?;
    let guild_name = quoted(args.as_slice(), 0)?;
    let motd = match quoted(args.as_slice(), 1) {
        Some(m) => m,
        None => Vec::new(),
    };
    assert(motd@ == match quoted_nth(args@, 1) {
        Some(m) => m,
        None => Seq::<char>::empty(),
    });
    Some(
        PlayerEvent::GuildInfoLoaded {
            timestamp: string_of(ts.as_slice()),
            guild_id,
            guild_name: string_of(guild_name.as_slice()),
            motd: string_of(motd.as_slice()),
        },
    )
}

/// `ProcessUpdateEffectName(entityId, effectInstanceId, "Effect Name, Level N")`.
pub open spec fn effect_name_event(line: Seq<char>) -> Option<EventV> {
    match (line_timestamp(line), after(line, "ProcessUpdateEffectName("@)) {
        (Some(ts), Some(args)) => match cut(args, ',') {
            Some((e, rest)) => match cut(rest, ',') {
                Some((x, _)) => match (trimmed_u32(e), trimmed_u32(x), quoted_nth(rest, 0)) {
                    (Some(entity_id), Some(effect_instance_id), Some(display_name)) => Some(
                        EventV::EffectNameUpdated { ts, entity_id, effect_instance_id, display_name },
                    ),
                    _ => None,
                },
                None => None,
            },
            None => None,
        },
        _ => None,
    }
}

pub fn parse_update_effect_name(line: &[char]) -> (r: Option<PlayerEvent>)
    ensures
        ev_opt(r) == effect_name_event(line@),
{
    let ts = line_ts(line)?;
    let args = after_marker(line, "ProcessUpdateEffectName(")?;
    let (e, rest) = cut_at(args.as_slice(), ',')?;
    let (x, _) = cut_at(rest.as_slice(), ',')?;
    let entity_id = trimmed_u32_exec(e.as_slice())?;
    let effect_instance_id = trimmed_u32_exec(x.as_slice())?;
    let display_name = quoted(rest.as_slice(), 0)?;
    Some(
        PlayerEvent::EffectNameUpdated {
            timestamp: string_of(ts.as_slice()),
            entity_id,
            effect_instance_id,
            display_name: string_of(display_name.as_slice()),
        },
    )
}


// ============================================================
// Entity descriptions
// ============================================================

/// The position just after the `k`th `'"'` at or after `pos`.
pub open spec fn after_quotes(s: Seq<char>, pos: int, k: nat) -> Option<int>
    decreases k,
{
    if k == 0 {
        Some(pos)
    } else {
        match find(s.skip(pos), seq!['"']) {
            Some(i) => after_quotes(s, pos + i + 1, (k - 1) as nat),
            None => None,
        }
    }
}

fn after_quotes_exec(s: &[char], pos: usize, k: usize) -> (r: Option<usize>)
    requires
        pos <= s@.len(),
    ensures
        match r {
            Some(p) => after_quotes(s@, pos as int, k as nat) == Some(p as int) && p <= s@.len(),
            None => after_quotes(s@, pos as int, k as nat) is None,
        },
    decreases k,
{
    if k == 0 {
        return Some(pos);
    }
    let n = s.len();
    let rest = copy_range(s, pos, n);
    assert(rest@ =~= s@.skip(pos as int));
    let i = find_char(rest.as_slice(), '"')?;
    proof {
        crate::text::lemma_find_single_pub(rest@, '"');
    }
    after_quotes_exec(s, pos + i + 1, k - 1)
}

/// The text before the first `'"'` (all of it when there is none).
pub open spec fn upto_quote(s: Seq<char>) -> Seq<char> {
    match find(s, seq!['"']) {
        Some(i) => s.take(i),
        None => s,
    }
}

/// `ProcessUpdateDescription(entityId, "name", "description", "action",
/// actionType, "appearance", flags)`; unparsable flags read as zero.
pub open spec fn update_description_event(line: Seq<char>) -> Option<EventV> {
    match (line_timestamp(line), after(line, "ProcessUpdateDescription("@)) {
        (Some(ts), Some(args)) => match cut(args, ',') {
            Some((e, _)) => match (
                trimmed_u32(e),
                quoted_nth(args, 0),
                quoted_nth(args, 1),
                quoted_nth(args, 2),
                quoted_nth(args, 3),
            ) {
                (Some(entity_id), Some(name), Some(description), Some(action), Some(appearance)) =>
                match (after_quotes(args, 0, 6), rfind(args, seq!['"'])) {
                    (Some(ae), Some(lq)) => {
                        let flags_str = trim(
                            no_close(trim(trim_start_by(args.skip(lq + 1), CharClass::Only(',')))),
                        );
                        Some(
                            EventV::EntityDescriptionUpdated {
                                ts,
                                entity_id,
                                name,
                                description,
                                action,
                                action_type: trim(
                                    trim_by(trim(upto_quote(args.skip(ae))), CharClass::Only(',')),
                                ),
                                appearance,
                                flags: match num_u32(flags_str) {
                                    Some(f) => f,
                                    None => 0,
                                },
                            },
                        )
                    },
                    _ => None,
                },
                _ => None,
            },
            None => None,
        },
        _ => None,
    }
}

pub fn parse_update_description(line: &[char]) -> (r: Option<PlayerEvent>)
    ensures
        ev_opt(r) == update_description_event(line@),
{
    let ts = line_ts(line)?;
    let args = after_marker(line, "ProcessUpdateDescription(")?;
    let (e, _) = cut_at(args.as_slice(), ',')?;
    let entity_id = trimmed_u32_exec(e.as_slice())?;
    let name = quoted(args.as_slice(), 0)?;
    let description = quoted(args.as_slice(), 1)?;
    let action = quoted(args.as_slice(), 2)?;
    let appearance = quoted(args.as_slice(), 3)?;
    let ae = after_quotes_exec(args.as_slice(), 0, 6)?;
    let n = args.len();
    let before_app = copy_range(args.as_slice(), ae, n);
    assert(before_app@ =~= args@.skip(ae as int));
    let head = match find_char(before_app.as_slice(), '"') {
        Some(i) => {
            proof {
                crate::text::lemma_find_single_pub(before_app@, '"');
            }
            copy_range(before_app.as_slice(), 0, i)
        },
        None => copy_range(before_app.as_slice(), 0, before_app.len()),
    };
    assert(head@ =~= upto_quote(before_app@));
    let t1 = trim_ws(head.as_slice());
    let t2 = trim_class(t1.as_slice(), CharClass::Only(','));
    let action_type = trim_ws(t2.as_slice());
    let lq = rfind_char(args.as_slice(), '"')?;
    proof {
        crate::text::lemma_rfind_facts(args@, seq!['"']);
    }
    let after_last = copy_range(args.as_slice(), lq + 1, n);
    assert(after_last@ =~= args@.skip(lq + 1));
    let f1 = trim_start_class(after_last.as_slice(), CharClass::Only(','));
    let f2 = trim_ws(f1.as_slice());
    let f3 = trim_end_class(f2.as_slice(), CharClass::Only(')'));
    let flags_str = trim_ws(f3.as_slice());
    let flags = match parse_u32(flags_str.as_slice()) {
        Some(f) => f,
        None => 0,
    };
    Some(
        PlayerEvent::EntityDescriptionUpdated {
            timestamp: string_of(ts.as_slice()),
            entity_id,
            name: string_of(name.as_slice()),
            description: string_of(description.as_slice()),
            action: string_of(action.as_slice()),
            action_type: string_of(action_type.as_slice()),
            appearance: string_of(appearance.as_slice()),
            flags,
        },
    )
}

// ============================================================
// Lists
// ============================================================

/// The trimmed, non-empty pieces, in order.
pub open spec fn nonempty_trimmed(parts: Seq<Seq<char>>) -> Seq<Seq<char>>
    decreases parts.len(),
{
    if parts.len() == 0 {
        Seq::empty()
    } else {
        let rest = nonempty_trimmed(parts.drop_last());
        if trim(parts.last()).len() > 0 {
            rest.push(trim(parts.last()))
        } else {
            rest
        }
    }
}

/// The pieces that read as `u32` after trimming, in order.
pub open spec fn parsed_u32s(parts: Seq<Seq<char>>) -> Seq<u32>
    decreases parts.len(),
{
    if parts.len() == 0 {
        Seq::empty()
    } else {
        let rest = parsed_u32s(parts.drop_last());
        match trimmed_u32(parts.last()) {
            Some(v) => rest.push(v),
            None => rest,
        }
    }
}

fn nonempty_trimmed_exec(parts: &Vec<Vec<char>>) -> (r: Vec<Vec<char>>)
    ensures
        views(r@) == nonempty_trimmed(views(parts@)),
{
    let mut out: Vec<Vec<char>> = Vec::new();
    let mut i: usize = 0;
    while i < parts.len()
        invariant
            i <= parts@.len(),
            views(out@) == nonempty_trimmed(views(parts@).take(i as int)),
        decreases parts.len() - i,
    {
        let t = trim_ws(parts[i].as_slice());
        proof {
            let vs = views(parts@).take(i + 1);
            assert(vs.drop_last() =~= views(parts@).take(i as int));
            assert(vs.last() == parts@[i as int]@);
        }
        if t.len() > 0 {
            let ghost before = out@;
            out.push(t);
            assert(views(out@) =~= views(before).push(t@));
        }
        i += 1;
    }
    assert(views(parts@).take(parts@.len() as int) =~= views(parts@));
    out
}

fn parsed_u32s_exec(parts: &Vec<Vec<char>>) -> (r: Vec<u32>)
    ensures
        r@ == parsed_u32s(views(parts@)),
{
    let mut out: Vec<u32> = Vec::new();
    let mut i: usize = 0;
    while i < parts.len()
        invariant
            i <= parts@.len(),
            out@ == parsed_u32s(views(parts@).take(i as int)),
        decreases parts.len() - i,
    {
        proof {
            let vs = views(parts@).take(i + 1);
            assert(vs.drop_last() =~= views(parts@).take(i as int));
            assert(vs.last() == parts@[i as int]@);
        }
        match trimmed_u32_exec(parts[i].as_slice()) {
            Some(v) => {
                out.push(v);
            },
            None => {},
        }
        i += 1;
    }
    assert(views(parts@).take(parts@.len() as int) =~= views(parts@));
    out
}

/// `ProcessSetAttributes(entityId, "[KEY1, KEY2, ...], [val1, val2, ...]")`:
/// names and values are paired in order; every value must be a decimal
/// literal and the two lists must have equal length.
pub open spec fn set_attributes_event(line: Seq<char>) -> Option<EventV> {
    match (line_timestamp(line), after(line, "ProcessSetAttributes("@)) {
        (Some(ts), Some(args)) => match find(args, seq!['[']) {
            Some(fb) => match find(args.take(fb), seq![',']) {
                Some(fc) => match (trimmed_u32(args.take(fc)), find(args.skip(fb + 1), seq![']'])) {
                    (Some(entity_id), Some(k)) => {
                        let keys = nonempty_trimmed(split(args.subrange(fb + 1, fb + 1 + k), ','));
                        let after_keys = args.skip(fb + 1 + k + 1);
                        match find(after_keys, seq!['[']) {
                            Some(vb) => match find(after_keys.skip(vb + 1), seq![']']) {
                                Some(v) => {
                                    let vals = nonempty_trimmed(
                                        split(after_keys.subrange(vb + 1, vb + 1 + v), ','),
                                    );
                                    if (forall|j: int| 0 <= j < vals.len() ==> f32_literal(vals[j]))
                                        && keys.len() == vals.len() {
                                        Some(
                                            EventV::AttributesChanged {
                                                ts,
                                                entity_id,
                                                attributes: Seq::new(
                                                    keys.len(),
                                                    |j: int| (keys[j], vals[j]),
                                                ),
                                            },
                                        )
                                    } else {
                                        None
                                    }
                                },
                                None => None,
                            },
                            None => None,
                        }
                    },
                    _ => None,
                },
                None => None,
            },
            None => None,
        },
        _ => None,
    }
}

/// The bracketed list starting at the first `'['` of `s`: its inside, and
/// the text after its `']'`.
fn bracket_list(s: &[char]) -> (r: Option<(Vec<char>, Vec<char>)>)
    ensures
        match r {
            Some((inside, rest)) => match find(s@, seq!['[']) {
                Some(b) => match find(s@.skip(b + 1), seq![']']) {
                    Some(k) => inside@ == s@.subrange(b + 1, b + 1 + k) && rest@ == s@.skip(
                        b + 1 + k + 1,
                    ),
                    None => false,
                },
                None => false,
            },
            None => match find(s@, seq!['[']) {
                Some(b) => find(s@.skip(b + 1), seq![']']) is None,
                None => true,
            },
        },
{
    let b = find_char(s, '[')?;
    proof {
        crate::text::lemma_find_single_pub(s@, '[');
    }
    let n = s.len();
    let tail = copy_range(s, b + 1, n);
    assert(tail@ =~= s@.skip(b + 1));
    let k = find_char(tail.as_slice(), ']')?;
    proof {
        crate::text::lemma_find_single_pub(tail@, ']');
    }
    let inside = copy_range(s, b + 1, b + 1 + k);
    let rest = copy_range(s, b + 1 + k + 1, n);
    assert(inside@ =~= s@.subrange(b + 1, b + 1 + k));
    assert(rest@ =~= s@.skip(b + 1 + k + 1));
    Some((inside, rest))
}

fn all_f32_literals(vals: &Vec<Vec<char>>) -> (r: bool)
    ensures
        r == forall|q: int| 0 <= q < views(vals@).len() ==> f32_literal(#[trigger] views(vals@)[q]),
{
    let mut j: usize = 0;
    while j < vals.len()
        invariant
            j <= vals@.len(),
            forall|q: int| 0 <= q < j ==> f32_literal(#[trigger] vals@[q]@),
        decreases vals.len() - j,
    {
        if !is_f32_literal(vals[j].as_slice()) {
            assert(views(vals@)[j as int] == vals@[j as int]@);
            return false;
        }
        j += 1;
    }
    assert forall|q: int| 0 <= q < views(vals@).len() implies f32_literal(
        #[trigger] views(vals@)[q],
    ) by {
        assert(views(vals@)[q] == vals@[q]@);
    }
    true
}

pub fn parse_set_attributes(line: &[char]) -> (r: Option<PlayerEvent>)
    ensures
        ev_opt(r) == set_attributes_event(line@),
{
    let ts = line_ts(line)?;
    let args = after_marker(line, "ProcessSetAttributes(")?;
    let fb = find_char(args.as_slice(), '[')?;
    proof {
        crate::text::lemma_find_single_pub(args@, '[');
    }
    let head = copy_range(args.as_slice(), 0, fb);
    assert(head@ =~= args@.take(fb as int));
    let fc = find_char(head.as_slice(), ',')?;
    proof {
        crate::text::lemma_find_single_pub(head@, ',');
    }
    let idp = copy_range(args.as_slice(), 0, fc);
    assert(idp@ =~= args@.take(fc as int));
    let entity_id = trimmed_u32_exec(idp.as_slice())?;
    let (keys_str, after_keys) = bracket_list(args.as_slice())?;
    let (vals_str, _) = bracket_list(after_keys.as_slice())?;
    let key_parts = split_views(keys_str.as_slice(), ',');
    let keys = nonempty_trimmed_exec(&key_parts);
    let val_parts = split_views(vals_str.as_slice(), ',');
    let vals = nonempty_trimmed_exec(&val_parts);
    if !all_f32_literals(&vals) {
        return None;
    }
    if keys.len() != vals.len() {
        return None;
    }
    let mut attributes: Vec<AttributeValue> = Vec::new();
    let mut i: usize = 0;
    while i < keys.len()
        invariant
            i <= keys@.len() == vals@.len(),
            attrs_view(attributes@) =~= Seq::new(
                i as nat,
                |q: int| (views(keys@)[q], views(vals@)[q]),
            ),
        decreases keys.len() - i,
    {
        let ghost before = attributes@;
        attributes.push(
            AttributeValue {
                name: string_of(keys[i].as_slice()),
                value: string_of(vals[i].as_slice()),
            },
        );
        assert(attrs_view(attributes@) =~= attrs_view(before).push((keys@[i as int]@, vals@[i as int]@)));
        i += 1;
    }
    Some(
        PlayerEvent::AttributesChanged {
            timestamp: string_of(ts.as_slice()),
            entity_id,
            attributes,
        },
    )
}

/// Whether the bracket slice of `ProcessAddEffects` is in bounds: its first
/// `']'` does not come before its first `'['`.
pub open spec fn add_effects_ok(line: Seq<char>) -> bool {
    match add_effects_head(line) {
        Some((_, _, _, rest)) => match (find(rest, seq!['[']), find(rest, seq![']'])) {
            (Some(bs), Some(be)) => bs + 1 <= be,
            _ => true,
        },
        None => true,
    }
}

/// Timestamp, entity id, source entity id and the text after the first
/// comma of `ProcessAddEffects(entityId, sourceEntityId, ...)`.
pub open spec fn add_effects_head(line: Seq<char>) -> Option<(Seq<char>, u32, u32, Seq<char>)> {
    match (line_timestamp(line), after(line, "ProcessAddEffects("@)) {
        (Some(ts), Some(args)) => match cut(args, ',') {
            Some((e, rest)) => match (trimmed_u32(e), cut(rest, ',')) {
                (Some(entity_id), Some((se, _))) => match trimmed_u32(se) {
                    Some(source) => Some((ts, entity_id, source, rest)),
                    None => None,
                },
                _ => None,
            },
            None => None,
        },
        _ => None,
    }
}

/// The flag token after the effect list: quotes, commas, parentheses and
/// blanks around it stripped.
pub open spec fn effects_flag(rest_after: Seq<char>) -> Seq<char> {
    trim(
        trim_end_by(
            no_close(
                trim(
                    trim_start_by(
                        trim_start_by(trim(rest_after), CharClass::Only('"')),
                        CharClass::Only(','),
                    ),
                ),
            ),
            CharClass::Only('"'),
        ),
    )
}

/// `ProcessAddEffects(entityId, sourceEntityId, "[id1, id2, ...]", flag)`:
/// ids that do not read as `u32` are skipped; a `False` flag marks the
/// login batch.
pub open spec fn add_effects_event(line: Seq<char>) -> Option<EventV> {
    match add_effects_head(line) {
        Some((ts, entity_id, source_entity_id, rest)) => match (
            find(rest, seq!['[']),
            find(rest, seq![']']),
        ) {
            (Some(bs), Some(be)) => Some(
                EventV::EffectsAdded {
                    ts,
                    entity_id,
                    source_entity_id,
                    effect_ids: parsed_u32s(split(rest.subrange(bs + 1, be), ',')),
                    is_login_batch: effects_flag(rest.skip(be + 1)) == "False"@,
                },
            ),
            _ => None,
        },
        None => None,
    }
}

pub fn parse_add_effects(line: &[char]) -> (r: Option<PlayerEvent>)
    requires
        add_effects_ok(line@),
    ensures
        ev_opt(r) == add_effects_event(line@),
{
    let ts = line_ts(line)?;
    let args = after_marker(line, "ProcessAddEffects(")?;
    let (e, rest) = cut_at(args.as_slice(), ',')?;
    let entity_id = trimmed_u32_exec(e.as_slice())?;
    let (se, _) = cut_at(rest.as_slice(), ',')?;
    let source_entity_id = trimmed_u32_exec(se.as_slice())?;
    let bs = find_char(rest.as_slice(), '[')?;
    let be = find_char(rest.as_slice(), ']')?;
    proof {
        crate::text::lemma_find_single_pub(rest@, '[');
        crate::text::lemma_find_single_pub(rest@, ']');
    }
    let n = rest.len();
    let ids_str = copy_range(rest.as_slice(), bs + 1, be);
    let parts = split_views(ids_str.as_slice(), ',');
    let effect_ids = parsed_u32s_exec(&parts);
    let rest_after = copy_range(rest.as_slice(), be + 1, n);
    assert(rest_after@ =~= rest@.skip(be + 1));
    let f1 = trim_ws(rest_after.as_slice());
    let f2 = trim_start_class(f1.as_slice(), CharClass::Only('"'));
    let f3 = trim_start_class(f2.as_slice(), CharClass::Only(','));
    let f4 = trim_ws(f3.as_slice());
    let f5 = trim_end_class(f4.as_slice(), CharClass::Only(')'));
    let f6 = trim_end_class(f5.as_slice(), CharClass::Only('"'));
    let flag = trim_ws(f6.as_slice());
    Some(
        PlayerEvent::EffectsAdded {
            timestamp: string_of(ts.as_slice()),
            entity_id,
            source_entity_id,
            effect_ids,
            is_login_batch: eq_str(flag.as_slice(), "False"),
        },
    )
}

/// Whether the bracket slice of `ProcessCompleteDirectedGoals` is in
/// bounds.
pub open spec fn directed_goals_ok(line: Seq<char>) -> bool {
    match (line_timestamp(line), after(line, "ProcessCompleteDirectedGoals("@)) {
        (Some(_), Some(args)) => match (find(args, seq!['[']), find(args, seq![']'])) {
            (Some(bs), Some(be)) => bs + 1 <= be,
            _ => true,
        },
        _ => true,
    }
}

/// `ProcessCompleteDirectedGoals([id, id, ...])`; ids that do not read as
/// `u32` are skipped.
pub open spec fn directed_goals_event(line: Seq<char>) -> Option<EventV> {
    match (line_timestamp(line), after(line, "ProcessCompleteDirectedGoals("@)) {
        (Some(ts), Some(args)) => match (find(args, seq!['[']), find(args, seq![']'])) {
            (Some(bs), Some(be)) => Some(
                EventV::DirectedGoalsLoaded {
                    ts,
                    goal_ids: parsed_u32s(split(args.subrange(bs + 1, be), ',')),
                },
            ),
            _ => None,
        },
        _ => None,
    }
}

pub fn parse_complete_directed_goals(line: &[char]) -> (r: Option<PlayerEvent>)
    requires
        directed_goals_ok(line@),
    ensures
        ev_opt(r) == directed_goals_event(line@),
{
    let ts = line_ts(line)?;
    let args = after_marker(line, "ProcessCompleteDirectedGoals(")?;
    let bs = find_char(args.as_slice(), '[')?;
    let be = find_char(args.as_slice(), ']')?;
    proof {
        crate::text::lemma_find_single_pub(args@, '[');
        crate::text::lemma_find_single_pub(args@, ']');
    }
    let ids_str = copy_range(args.as_slice(), bs + 1, be);
    let parts = split_views(ids_str.as_slice(), ',');
    let goal_ids = parsed_u32s_exec(&parts);
    Some(PlayerEvent::DirectedGoalsLoaded { timestamp: string_of(ts.as_slice()), goal_ids })
}


// ============================================================
// Equipment
// ============================================================

/// Where a slot value ends: the first `';'` or `')'` at nesting depth zero
/// from position `i`, given the depth there (or the end of the text).
pub open spec fn slot_end(s: Seq<char>, i: int, depth: nat) -> int
    decreases s.len() - i,
{
    if i < 0 || i >= s.len() {
        s.len() as int
    } else if s[i] == '(' {
        slot_end(s, i + 1, depth + 1)
    } else if s[i] == ')' {
        if depth == 0 {
            i
        } else {
            slot_end(s, i + 1, (depth - 1) as nat)
        }
    } else if s[i] == ';' && depth == 0 {
        i
    } else {
        slot_end(s, i + 1, depth)
    }
}

proof fn lemma_slot_end_bounds(s: Seq<char>, i: int, depth: nat)
    requires
        0 <= i,
    ensures
        0 <= slot_end(s, i, depth) <= s.len(),
    decreases s.len() - i,
{
    if i < s.len() {
        if s[i] == '(' {
            lemma_slot_end_bounds(s, i + 1, depth + 1);
        } else if s[i] == ')' {
            if depth != 0 {
                lemma_slot_end_bounds(s, i + 1, (depth - 1) as nat);
            }
        } else if !(s[i] == ';' && depth == 0) {
            lemma_slot_end_bounds(s, i + 1, depth);
        }
    }
}

/// A slot value: everything up to the `';'` or `')'` that closes it at
/// depth zero; nested parentheses are kept.
pub open spec fn slot_value(s: Seq<char>) -> Seq<char> {
    s.take(slot_end(s, 0, 0))
}

pub fn extract_slot_value(s: &[char]) -> (r: Vec<char>)
    ensures
        r@ == slot_value(s@),
{
    let mut depth: usize = 0;
    let mut i: usize = 0;
    while i < s.len()
        invariant
            i <= s@.len(),
            depth <= i,
            slot_end(s@, 0, 0) == slot_end(s@, i as int, depth as nat),
        ensures
            i <= s@.len(),
            slot_end(s@, 0, 0) == i as int,
        decreases s.len() - i,
    {
        let c = s[i];
        if c == '(' {
            depth += 1;
        } else if c == ')' {
            if depth == 0 {
                break;
            }
            depth -= 1;
        } else if c == ';' && depth == 0 {
            break;
        }
        i += 1;
    }
    proof {
        lemma_slot_end_bounds(s@, 0, 0);
    }
    copy_range(s, 0, i)
}

/// The entry for one slot prefix: the slot's name and its value, when the
/// prefix occurs and its value is not empty.
pub open spec fn slot_entry(app: Seq<char>, prefix: Seq<char>, name: Seq<char>) -> Seq<
    (Seq<char>, Seq<char>),
> {
    match find(app, prefix) {
        Some(st) => {
            let v = slot_value(app.skip(st + prefix.len()));
            if v.len() > 0 {
                seq![(name, v)]
            } else {
                Seq::empty()
            }
        },
        None => Seq::empty(),
    }
}

/// The equipment slots named in an appearance string, in a fixed order:
/// `@Chest=`, `@Head=`, `@Legs=`, `@Feet=`, `@Hands=`, `@MainHand=`,
/// `@OffHandShield=`, `@Racial=`, then `MainHandEquip=` and `OffHandEquip=`.
pub open spec fn equipment_slots(app: Seq<char>) -> Seq<(Seq<char>, Seq<char>)> {
    slot_entry(app, "@Chest="@, "Chest"@) + slot_entry(app, "@Head="@, "Head"@) + slot_entry(
        app,
        "@Legs="@,
        "Legs"@,
    ) + slot_entry(app, "@Feet="@, "Feet"@) + slot_entry(app, "@Hands="@, "Hands"@) + slot_entry(
        app,
        "@MainHand="@,
        "MainHand"@,
    ) + slot_entry(app, "@OffHandShield="@, "OffHandShield"@) + slot_entry(
        app,
        "@Racial="@,
        "Racial"@,
    ) + slot_entry(app, "MainHandEquip="@, "MainHandEquip"@) + slot_entry(
        app,
        "OffHandEquip="@,
        "OffHandEquip"@,
    )
}

fn push_slot(out: &mut Vec<EquipmentSlot>, app: &[char], prefix: &str, name: &str)
    ensures
        slots_view(final(out)@) == slots_view(old(out)@) + slot_entry(app@, prefix@, name@),
{
    let st = match find_marker(app, prefix) {
        Some(st) => st,
        None => {
            assert(slots_view(out@) =~= slots_view(out@) + Seq::<(Seq<char>, Seq<char>)>::empty());
            return ;
        },
    };
    proof {
        crate::text::lemma_find_facts(app@, prefix@);
    }
    let p = crate::text::chars_of(prefix);
    let n = app.len();
    let rest = copy_range(app, st + p.len(), n);
    assert(rest@ =~= app@.skip(st + prefix@.len()));
    let v = extract_slot_value(rest.as_slice());
    if v.len() > 0 {
        let ghost before = out@;
        out.push(EquipmentSlot { slot: name.to_string(), appearance_key: string_of(v.as_slice()) });
        assert(slots_view(out@) =~= slots_view(before) + seq![(name@, v@)]);
    } else {
        assert(slots_view(out@) =~= slots_view(out@) + Seq::<(Seq<char>, Seq<char>)>::empty());
    }
}

fn equipment_slots_of(appearance: &[char]) -> (r: Vec<EquipmentSlot>)
    ensures
        slots_view(r@) == equipment_slots(appearance@),
{
    let mut out: Vec<EquipmentSlot> = Vec::new();
    assert(slots_view(out@) =~= Seq::<(Seq<char>, Seq<char>)>::empty());
    push_slot(&mut out, appearance, "@Chest=", "Chest");
    push_slot(&mut out, appearance, "@Head=", "Head");
    push_slot(&mut out, appearance, "@Legs=", "Legs");
    push_slot(&mut out, appearance, "@Feet=", "Feet");
    push_slot(&mut out, appearance, "@Hands=", "Hands");
    push_slot(&mut out, appearance, "@MainHand=", "MainHand");
    push_slot(&mut out, appearance, "@OffHandShield=", "OffHandShield");
    push_slot(&mut out, appearance, "@Racial=", "Racial");
    push_slot(&mut out, appearance, "MainHandEquip=", "MainHandEquip");
    push_slot(&mut out, appearance, "OffHandEquip=", "OffHandEquip");
    assert(slots_view(out@) =~= equipment_slots(appearance@));
    out
}

/// Parse equipment slot assignments from an appearance string.
pub fn parse_equipment_slots(appearance: &str) -> (r: Vec<EquipmentSlot>)
    ensures
        slots_view(r@) == equipment_slots(appearance@),
{
    let c = crate::text::chars_of(appearance);
    equipment_slots_of(c.as_slice())
}

/// `ProcessSetEquippedItems(..., "appearance", entityId)`.
pub open spec fn equipped_items_event(line: Seq<char>) -> Option<EventV> {
    match (line_timestamp(line), after(line, "ProcessSetEquippedItems("@)) {
        (Some(ts), Some(args)) => match (quoted_nth(args, 0), rfind(args, seq!['"'])) {
            (Some(appearance), Some(q)) => {
                let es = no_close(
                    trim(trim_start_by(trim(args.skip(q + 1)), CharClass::Only(','))),
                );
                match num_u32(es) {
                    Some(entity_id) => Some(
                        EventV::EquipmentChanged {
                            ts,
                            entity_id,
                            appearance,
                            equipment: equipment_slots(appearance),
                        },
                    ),
                    None => None,
                }
            },
            _ => None,
        },
        _ => None,
    }
}

pub fn parse_set_equipped_items(line: &[char]) -> (r: Option<PlayerEvent>)
    ensures
        ev_opt(r) == equipped_items_event(line@),
{
    let ts = line_ts(line)?;
    let args = after_marker(line, "ProcessSetEquippedItems(")?;
    let appearance = quoted(args.as_slice(), 0)?;
    let q = rfind_char(args.as_slice(), '"')?;
    proof {
        crate::text::lemma_rfind_facts(args@, seq!['"']);
    }
    let n = args.len();
    let after_quote = copy_range(args.as_slice(), q + 1, n);
    assert(after_quote@ =~= args@.skip(q + 1));
    let e1 = trim_ws(after_quote.as_slice());
    let e2 = trim_start_class(e1.as_slice(), CharClass::Only(','));
    let e3 = trim_ws(e2.as_slice());
    let es = trim_end_class(e3.as_slice(), CharClass::Only(')'));
    let entity_id = parse_u32(es.as_slice())?;
    let equipment = equipment_slots_of(appearance.as_slice());
    Some(
        PlayerEvent::EquipmentChanged {
            timestamp: string_of(ts.as_slice()),
            entity_id,
            appearance: string_of(appearance.as_slice()),
            equipment,
        },
    )
}

} // verus!
