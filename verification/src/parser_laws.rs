//! Properties of the Player.log state machine that hold across lines.

use vstd::prelude::*;
use crate::text::contains;
use crate::log_fields::line_timestamp;
use crate::log_events::{
    add_item_fields, add_to_storage_event, delete_item_fields, stack_of, type_of, update_item_fields,
    vendor_add_item_event, vendor_update_item_event,
};
use crate::player_events::{ContextV, DeleteContext, EventV, ProvV};
use crate::activity::{first_index, keep, live_at, provenance_of};
use crate::player_event_parser::{
    GainV, LineKind, ParserV, best_gain, branch, branch_ok, consume_gain, delay_loop_step,
    delay_ok, delete_event, add_item_step, update_item_step, start_interaction_step, remove_storage_step, corpse_of, end_interaction_step, expire_at, flushed, gain_step, keep_gains,
    line_kind, name_of, resolve, sat_sub, secs, step, step_ok, storage_vault_step,
    talk_screen_step, vendor_screen_step, expire, vault_key, flush_events,
    CHAT_GAIN_BUFFER_LIFETIME_SECS, CHAT_GAIN_MATCH_WINDOW_SECS, PENDING_INTERACTION_LIFETIME_SECS,
};

verus! {

pub open spec fn gain_dist(g: GainV, at: u32) -> int {
    if g.2 >= at {
        g.2 - at
    } else {
        at - g.2
    }
}

/// Any line other than a delete leaves no delete buffered: every buffered
/// delete is resolved or flushed by the next line.
pub proof fn law_pending_deletes_flushed(s: ParserV, line: Seq<char>)
    requires
        line_kind(line) != LineKind::DeleteItem || !contains(line, "LocalPlayer: Process"@),
    ensures
        step(s, line).0.deletes.len() == 0,
{
}

/// Buffered deletes come out first, in the order they were buffered, each
/// once, with their timestamp, instance and item name.
pub proof fn law_deletes_emitted_in_order(s: ParserV, line: Seq<char>)
    requires
        line_kind(line) != LineKind::DeleteItem || !contains(line, "LocalPlayer: Process"@),
    ensures
        step(s, line).1.len() >= s.deletes.len(),
        forall|i: int|
            0 <= i < s.deletes.len() ==> {
                let e = #[trigger] step(s, line).1[i];
                &&& e is ItemDeleted
                &&& e->ItemDeleted_ts == s.deletes[i].0
                &&& e->ItemDeleted_instance_id == s.deletes[i].1
                &&& e->ItemDeleted_item_name == s.deletes[i].2
            },
{
    let s1 = expire_at(s, line);
    assert(s1.deletes == s.deletes);
}

pub open spec fn all_live(cs: Seq<ContextV>, now: u32) -> bool {
    forall|i: int| 0 <= i < cs.len() ==> now < (#[trigger] cs[i]).close_deadline_secs
}

proof fn lemma_keep_live(cs: Seq<ContextV>, now: u32)
    ensures
        all_live(keep(cs, live_at(now)), now),
    decreases cs.len(),
{
    if cs.len() > 0 {
        lemma_keep_live(cs.drop_last(), now);
        let rest = keep(cs.drop_last(), live_at(now));
        assert forall|i: int| 0 <= i < keep(cs, live_at(now)).len() implies now < (
        #[trigger] keep(cs, live_at(now))[i]).close_deadline_secs by {
            if i < rest.len() {
                assert(keep(cs, live_at(now))[i] == rest[i]);
            }
        }
    }
}

proof fn lemma_keep_still_live(cs: Seq<ContextV>, p: spec_fn(ContextV) -> bool, now: u32)
    requires
        all_live(cs, now),
    ensures
        all_live(keep(cs, p), now),
    decreases cs.len(),
{
    if cs.len() > 0 {
        assert(all_live(cs.drop_last(), now)) by {
            assert forall|i: int| 0 <= i < cs.drop_last().len() implies now < (
            #[trigger] cs.drop_last()[i]).close_deadline_secs by {
                assert(cs.drop_last()[i] == cs[i]);
            }
        }
        lemma_keep_still_live(cs.drop_last(), p, now);
        let rest = keep(cs.drop_last(), p);
        assert(now < cs[cs.len() - 1].close_deadline_secs);
        assert forall|i: int| 0 <= i < keep(cs, p).len() implies now < (
        #[trigger] keep(cs, p)[i]).close_deadline_secs by {
            if i < rest.len() {
                assert(keep(cs, p)[i] == rest[i]);
            }
        }
    }
}

proof fn lemma_delay_live(f: ParserV, line: Seq<char>, now: u32)
    requires
        all_live(f.contexts, now),
        delay_ok(line),
        line_timestamp(line) is Some,
        now == secs(line_timestamp(line)->0),
    ensures
        all_live(delay_loop_step(f, line).0.contexts, now),
{
}

proof fn lemma_talk_live(f: ParserV, line: Seq<char>, now: u32)
    requires
        all_live(f.contexts, now),
        line_timestamp(line) is Some,
        now == secs(line_timestamp(line)->0),
        now < 400000,
    ensures
        all_live(talk_screen_step(f, line).contexts, now),
{
    assert forall|e: u32| #[trigger] first_index(f.contexts, corpse_of(e)) matches Some(i) ==> 0 <= i
        < f.contexts.len() by {
        crate::activity::lemma_first_index(f.contexts, corpse_of(e));
    }
}

proof fn lemma_screens_live(f: ParserV, line: Seq<char>, now: u32)
    requires
        all_live(f.contexts, now),
        line_timestamp(line) is Some,
        now == secs(line_timestamp(line)->0),
        now < 400000,
    ensures
        all_live(vendor_screen_step(f, line).contexts, now),
        all_live(storage_vault_step(f, line).contexts, now),
{
}

proof fn lemma_end_live(f: ParserV, line: Seq<char>, now: u32)
    requires
        all_live(f.contexts, now),
    ensures
        all_live(end_interaction_step(f, line).0.contexts, now),
{
    match crate::log_events::end_interaction_event(line) {
        Some(EventV::InteractionEnded { ts, entity_id }) => {
            if entity_id >= 0 {
                lemma_keep_still_live(
                    f.contexts,
                    crate::activity::not_for_entity(entity_id as u32),
                    now,
                );
            }
        },
        _ => {},
    }
}

proof fn lemma_item_steps_keep_contexts(f: ParserV, line: Seq<char>)
    ensures
        add_item_step(f, line).0.contexts == f.contexts,
        update_item_step(f, line).0.contexts == f.contexts,
        start_interaction_step(f, line).0.contexts == f.contexts,
        remove_storage_step(f, line).0.contexts == f.contexts,
{
}

#[verifier::rlimit(80)]
proof fn lemma_branch_live(f: ParserV, line: Seq<char>, k: LineKind, now: u32)
    requires
        all_live(f.contexts, now),
        branch_ok(f, line, k),
        line_timestamp(line) is Some,
        now == secs(line_timestamp(line)->0),
        now < 400000,
    ensures
        all_live(branch(f, line, k).0.contexts, now),
{
    lemma_item_steps_keep_contexts(f, line);
    if k == LineKind::DelayLoop {
        lemma_delay_live(f, line, now);
    } else if k == LineKind::TalkScreen {
        lemma_talk_live(f, line, now);
    } else if k == LineKind::VendorScreen || k == LineKind::ShowStorageVault {
        lemma_screens_live(f, line, now);
    } else if k == LineKind::EndInteraction {
        lemma_end_live(f, line, now);
    }
}

/// After a stamped line, every active context is still open at that
/// line's second: attribution only ever sees contexts alive at the time of
/// the event.
pub proof fn law_contexts_live_after_line(s: ParserV, line: Seq<char>)
    requires
        step_ok(s, line),
        line_timestamp(line) is Some,
    ensures
        all_live(step(s, line).0.contexts, secs(line_timestamp(line)->0)),
{
    let now = secs(line_timestamp(line)->0);
    crate::log_fields::lemma_line_timestamp_secs(line);
    let s1 = expire_at(s, line);
    lemma_keep_live(s.contexts, now);
    assert(all_live(s1.contexts, now));
    if resolve(s1, line) is None && contains(line, "LocalPlayer: Process"@) {
        let k = line_kind(line);
        if k != LineKind::DeleteItem {
            lemma_branch_live(flushed(s1), line, k, now);
        }
    }
}

proof fn lemma_best_gain(
    gs: Seq<GainV>,
    name: Seq<char>,
    at: u32,
    i: int,
    best: Option<int>,
    best_dist: int,
)
    requires
        0 <= i <= gs.len(),
        best_dist <= u32::MAX,
        match best {
            Some(b) => 0 <= b < i && gs[b].0 == name && gain_dist(gs[b], at) == best_dist
                && best_dist <= CHAT_GAIN_MATCH_WINDOW_SECS,
            None => best_dist == u32::MAX,
        },
        forall|j: int|
            0 <= j < i && gs[j].0 == name && gain_dist(gs[j], at) <= CHAT_GAIN_MATCH_WINDOW_SECS
                ==> gain_dist(gs[j], at) >= best_dist,
    ensures
        match best_gain(gs, name, at, i, best, best_dist) {
            Some(b) => 0 <= b < gs.len() && gs[b].0 == name && gain_dist(gs[b], at)
                <= CHAT_GAIN_MATCH_WINDOW_SECS && forall|j: int|
                0 <= j < gs.len() && gs[j].0 == name ==> gain_dist(gs[j], at) >= gain_dist(
                    gs[b],
                    at,
                ),
            None => forall|j: int|
                0 <= j < gs.len() && gs[j].0 == name ==> gain_dist(gs[j], at)
                    > CHAT_GAIN_MATCH_WINDOW_SECS,
        },
    decreases gs.len() - i,
{
    if i < gs.len() {
        let g = gs[i];
        let d = gain_dist(g, at);
        if g.0 == name && d <= CHAT_GAIN_MATCH_WINDOW_SECS && d < best_dist {
            lemma_best_gain(gs, name, at, i + 1, Some(i), d);
        } else {
            lemma_best_gain(gs, name, at, i + 1, best, best_dist);
        }
    }
}

/// A chat gain is matched by item name within the match window, the
/// closest one is taken, and it leaves the buffer; with no gain of that
/// name in the window nothing is taken.
pub proof fn law_chat_gain_match(gs: Seq<GainV>, name: Seq<char>, at: u32)
    ensures
        match consume_gain(gs, name, at) {
            Some((q, rest)) => exists|b: int|
                0 <= b < gs.len() && gs[b].0 == name && gs[b].1 == q && gain_dist(#[trigger] gs[b], at)
                    <= CHAT_GAIN_MATCH_WINDOW_SECS && rest.len() == gs.len() - 1 && (forall|j: int|
                    0 <= j < gs.len() && gs[j].0 == name ==> gain_dist(gs[j], at) >= gain_dist(
                        gs[b],
                        at,
                    )),
            None => forall|j: int|
                0 <= j < gs.len() && gs[j].0 == name ==> gain_dist(#[trigger] gs[j], at)
                    > CHAT_GAIN_MATCH_WINDOW_SECS,
        },
{
    lemma_best_gain(gs, name, at, 0, None, u32::MAX as int);
    if let Some(b) = best_gain(gs, name, at, 0, None, u32::MAX as int) {
        assert(gain_dist(gs[b], at) <= CHAT_GAIN_MATCH_WINDOW_SECS);
    }
}

proof fn lemma_keep_gains_fresh(gs: Seq<GainV>, now: u32)
    ensures
        forall|i: int|
            0 <= i < keep_gains(gs, now).len() ==> sat_sub(now, (#[trigger] keep_gains(gs, now)[i]).2)
                <= CHAT_GAIN_BUFFER_LIFETIME_SECS,
    decreases gs.len(),
{
    if gs.len() > 0 {
        lemma_keep_gains_fresh(gs.drop_last(), now);
        let rest = keep_gains(gs.drop_last(), now);
        assert forall|i: int| 0 <= i < keep_gains(gs, now).len() implies sat_sub(
            now,
            (#[trigger] keep_gains(gs, now)[i]).2,
        ) <= CHAT_GAIN_BUFFER_LIFETIME_SECS by {
            if i < rest.len() {
                assert(keep_gains(gs, now)[i] == rest[i]);
            }
        }
    }
}

/// After a chat gain is fed, the buffer holds it last and nothing older
/// than the buffer lifetime at its second.
pub proof fn law_chat_buffer_fresh(s: ParserV, name: Seq<char>, quantity: u32, hms: Seq<char>)
    ensures
        ({
            let r = gain_step(s, name, quantity, hms);
            &&& r.gains.last() == (name, quantity, secs(hms))
            &&& forall|i: int|
                0 <= i < r.gains.len() ==> sat_sub(secs(hms), (#[trigger] r.gains[i]).2)
                    <= CHAT_GAIN_BUFFER_LIFETIME_SECS
        }),
{
    let c = secs(hms);
    lemma_keep_gains_fresh(s.gains, c);
    let r = gain_step(s, name, quantity, hms);
    assert forall|i: int| 0 <= i < r.gains.len() implies sat_sub(c, (#[trigger] r.gains[i]).2)
        <= CHAT_GAIN_BUFFER_LIFETIME_SECS by {
        if i < r.gains.len() - 1 {
            assert(r.gains[i] == keep_gains(s.gains, c)[i]);
        }
    }
}

/// A delete line forgets the instance (name and stack size) and buffers
/// the delete with the name it had.
pub proof fn law_delete_forgets_instance(s: ParserV, line: Seq<char>, ts: Seq<char>, inst: u64)
    requires
        contains(line, "LocalPlayer: Process"@),
        line_kind(line) == LineKind::DeleteItem,
        resolve(expire_at(s, line), line) is None,
        delete_item_fields(line) == Some((ts, inst)),
    ensures
        !step(s, line).0.registry.contains_key(inst),
        !step(s, line).0.stacks.contains_key(inst),
        step(s, line).0.deletes == expire_at(s, line).deletes.push(
            (ts, inst, name_of(expire_at(s, line), inst)),
        ),
        step(s, line).1.len() == 0,
{
}

proof fn lemma_keep_is_filter(cs: Seq<ContextV>, p: spec_fn(ContextV) -> bool)
    ensures
        keep(cs, p) == cs.filter(p),
    decreases cs.len(),
{
    reveal(Seq::filter);
    if cs.len() > 0 {
        lemma_keep_is_filter(cs.drop_last(), p);
    }
}

proof fn lemma_keep_gains_is_filter(gs: Seq<GainV>, now: u32)
    ensures
        keep_gains(gs, now) == gs.filter(|g: GainV| sat_sub(now, g.2) <= CHAT_GAIN_BUFFER_LIFETIME_SECS),
    decreases gs.len(),
{
    reveal(Seq::filter);
    if gs.len() > 0 {
        lemma_keep_gains_is_filter(gs.drop_last(), now);
    }
}

/// Expiry at `now` keeps, in order, exactly the activity contexts whose
/// close deadline is after `now` (one whose deadline is `now` goes) and the
/// chat gains at most the buffer lifetime old; it drops the pending
/// interaction once it is older than its lifetime; nothing else changes.
pub proof fn law_expiry_filters(s: ParserV, now: u32)
    ensures
        expire(s, now).contexts == s.contexts.filter(|c: ContextV| now < c.close_deadline_secs),
        expire(s, now).gains == s.gains.filter(
            |g: GainV| sat_sub(now, g.2) <= CHAT_GAIN_BUFFER_LIFETIME_SECS,
        ),
        expire(s, now).pending == match s.pending {
            Some(p) => if sat_sub(now, p.2) > PENDING_INTERACTION_LIFETIME_SECS {
                None
            } else {
                Some(p)
            },
            None => None,
        },
        (ParserV { contexts: s.contexts, pending: s.pending, gains: s.gains, ..expire(s, now) }) == s,
{
    lemma_keep_is_filter(s.contexts, live_at(now));
    assert(live_at(now) == (|c: ContextV| now < c.close_deadline_secs));
    lemma_keep_gains_is_filter(s.gains, now);
}

/// A storage deposit right after buffered deletes: the deletes come out
/// first, in order, the deposited instance's as a storage transfer and the
/// others with an unknown context, then the deposit; nothing stays
/// buffered.
pub proof fn law_deposit_resolves_deletes(s: ParserV, line: Seq<char>)
    requires
        s.deletes.len() > 0,
        contains(line, "ProcessAddToStorageVault("@),
        add_to_storage_event(line, vault_key(expire_at(s, line))) is Some,
    ensures
        ({
            let ev = add_to_storage_event(line, vault_key(expire_at(s, line)))->0;
            let (s2, out) = step(s, line);
            &&& s2.deletes.len() == 0
            &&& out.len() == s.deletes.len() + 1
            &&& out[s.deletes.len() as int] == ev
            &&& forall|i: int|
                0 <= i < s.deletes.len() ==> #[trigger] out[i] == delete_event(
                    s.deletes[i],
                    if s.deletes[i].1 == ev->StorageDeposit_instance_id {
                        DeleteContext::StorageTransfer
                    } else {
                        DeleteContext::Unknown
                    },
                )
        }),
{
}

/// A vendor listing right after buffered deletes (and no storage deposit):
/// the listed instance's delete is a vendor sale, the others unknown, then
/// the listing; nothing stays buffered.
pub proof fn law_vendor_add_resolves_deletes(s: ParserV, line: Seq<char>)
    requires
        s.deletes.len() > 0,
        !(contains(line, "ProcessAddToStorageVault("@) && add_to_storage_event(
            line,
            vault_key(expire_at(s, line)),
        ) is Some),
        contains(line, "ProcessVendorAddItem("@),
        vendor_add_item_event(line) is Some,
    ensures
        ({
            let ev = vendor_add_item_event(line)->0;
            let (s2, out) = step(s, line);
            &&& s2.deletes.len() == 0
            &&& out.len() == s.deletes.len() + 1
            &&& out[s.deletes.len() as int] == ev
            &&& forall|i: int|
                0 <= i < s.deletes.len() ==> #[trigger] out[i] == delete_event(
                    s.deletes[i],
                    if s.deletes[i].1 == ev->VendorSold_instance_id {
                        DeleteContext::VendorSale
                    } else {
                        DeleteContext::Unknown
                    },
                )
        }),
{
}

/// A vendor stack update right after buffered deletes (and no deposit or
/// listing): every buffered delete is a vendor sale, then the update;
/// nothing stays buffered.
pub proof fn law_vendor_update_resolves_deletes(s: ParserV, line: Seq<char>)
    requires
        s.deletes.len() > 0,
        !(contains(line, "ProcessAddToStorageVault("@) && add_to_storage_event(
            line,
            vault_key(expire_at(s, line)),
        ) is Some),
        !(contains(line, "ProcessVendorAddItem("@) && vendor_add_item_event(line) is Some),
        contains(line, "ProcessVendorUpdateItem("@),
        vendor_update_item_event(line) is Some,
    ensures
        ({
            let ev = vendor_update_item_event(line)->0;
            let (s2, out) = step(s, line);
            &&& s2.deletes.len() == 0
            &&& out.len() == s.deletes.len() + 1
            &&& out[s.deletes.len() as int] == ev
            &&& forall|i: int|
                0 <= i < s.deletes.len() ==> #[trigger] out[i] == delete_event(
                    s.deletes[i],
                    DeleteContext::VendorSale,
                )
        }),
{
}

/// An item code update of an instance with a recorded stack `old`: after
/// the buffered deletes (flushed with an unknown context) comes one stack
/// change from `old` to the encoded size (`(encoded >> 16) + 1`), with the
/// encoded type id, the difference as the delta and, for a growth only, the
/// provenance of the active contexts; the instance's stack is the new size.
pub proof fn law_update_item_code(
    s: ParserV,
    line: Seq<char>,
    ts: Seq<char>,
    inst: u64,
    enc: u32,
    fs: bool,
)
    requires
        contains(line, "LocalPlayer: Process"@),
        line_kind(line) == LineKind::UpdateItemCode,
        resolve(expire_at(s, line), line) is None,
        update_item_fields(line) == Some((ts, inst, enc, fs)),
        s.stacks.contains_key(inst),
        s.stacks[inst] <= i32::MAX,
    ensures
        ({
            let old = s.stacks[inst];
            let new = stack_of(enc);
            let delta = new - old;
            let (s2, out) = step(s, line);
            &&& s2.stacks[inst] == new
            &&& out == flush_events(s.deletes) + seq![
                EventV::ItemStackChanged {
                    ts: ts,
                    instance_id: inst,
                    item_name: name_of(s, inst),
                    item_type_id: type_of(enc),
                    old_stack_size: old,
                    new_stack_size: new,
                    delta: delta as i32,
                    from_server: fs,
                    provenance: if delta > 0 {
                        provenance_of(expire_at(s, line).contexts)
                    } else {
                        ProvV::NotApplicable
                    },
                },
            ]
        }),
{
    let s1 = expire_at(s, line);
    assert(s1.stacks == s.stacks && s1.registry == s.registry && s1.deletes == s.deletes);
    assert(name_of(flushed(s1), inst) == name_of(s, inst));
}

proof fn lemma_keep_gains_from(gs: Seq<GainV>, now: u32)
    ensures
        forall|i: int|
            0 <= i < keep_gains(gs, now).len() ==> gs.contains(#[trigger] keep_gains(gs, now)[i]),
    decreases gs.len(),
{
    if gs.len() > 0 {
        lemma_keep_gains_from(gs.drop_last(), now);
        let rest = keep_gains(gs.drop_last(), now);
        assert forall|i: int| 0 <= i < keep_gains(gs, now).len() implies gs.contains(
            #[trigger] keep_gains(gs, now)[i],
        ) by {
            if i < rest.len() {
                assert(keep_gains(gs, now)[i] == rest[i]);
                let k = choose|k: int| 0 <= k < gs.drop_last().len() && gs.drop_last()[k] == rest[i];
                assert(gs[k] == rest[i]);
            } else {
                assert(keep_gains(gs, now)[i] == gs.last());
                assert(gs[gs.len() - 1] == gs.last());
            }
        }
    }
}

/// A chat gain fed at `hms` gives its quantity to a new item of the same
/// name added (as a new stack, with no slot) within the match window of it,
/// when no other buffered gain of that name is as close; the instance's
/// stack starts at that quantity.
pub proof fn law_fed_gain_sets_quantity(
    s: ParserV,
    name: Seq<char>,
    quantity: u32,
    hms: Seq<char>,
    line: Seq<char>,
    ts: Seq<char>,
    inst: u64,
    slot: i32,
)
    requires
        contains(line, "LocalPlayer: Process"@),
        line_kind(line) == LineKind::AddItem,
        add_item_fields(line) == Some((ts, name, inst, slot, true)),
        slot < 0,
        resolve(expire_at(gain_step(s, name, quantity, hms), line), line) is None,
        gain_dist((name, quantity, secs(hms)), secs(ts)) <= CHAT_GAIN_MATCH_WINDOW_SECS,
        forall|j: int|
            0 <= j < s.gains.len() && s.gains[j].0 == name ==> gain_dist(#[trigger] s.gains[j], secs(ts))
                > gain_dist((name, quantity, secs(hms)), secs(ts)),
    ensures
        ({
            let (s2, out) = step(gain_step(s, name, quantity, hms), line);
            &&& out.len() > 0
            &&& out.last() matches EventV::ItemAdded { initial_quantity, .. } && initial_quantity
                == quantity
            &&& s2.stacks[inst] == quantity
        }),
{
    let t = secs(hms);
    let now = secs(ts);
    let fed = (name, quantity, t);
    let s1 = gain_step(s, name, quantity, hms);
    let x = keep_gains(s.gains, t);
    assert(s1.gains == x.push(fed));
    assert(line_timestamp(line) == Some(ts));
    let gs = keep_gains(s1.gains, now);
    assert(s1.gains.drop_last() =~= x);
    assert(gs == keep_gains(x, now).push(fed));
    lemma_keep_gains_from(s.gains, t);
    lemma_keep_gains_from(x, now);
    let k = keep_gains(x, now);
    assert forall|j: int| 0 <= j < k.len() && k[j].0 == name implies gain_dist(#[trigger] k[j], now)
        > gain_dist(fed, now) by {
        assert(x.contains(k[j]));
        let a = choose|a: int| 0 <= a < x.len() && x[a] == k[j];
        assert(s.gains.contains(x[a]));
    }
    law_chat_gain_match(gs, name, now);
    match consume_gain(gs, name, now) {
        Some((q, rest)) => {
            let b = choose|b: int|
                0 <= b < gs.len() && gs[b].0 == name && gs[b].1 == q && gain_dist(#[trigger] gs[b], now)
                    <= CHAT_GAIN_MATCH_WINDOW_SECS && rest.len() == gs.len() - 1 && (forall|j: int|
                    0 <= j < gs.len() && gs[j].0 == name ==> gain_dist(gs[j], now) >= gain_dist(
                        gs[b],
                        now,
                    ));
            assert(gs[gs.len() - 1] == fed);
            if b < gs.len() - 1 {
                assert(gs[b] == k[b]);
                assert(gain_dist(gs[gs.len() - 1], now) >= gain_dist(gs[b], now));
            }
            assert(q == quantity);
        },
        None => {
            assert(gs[gs.len() - 1] == fed);
        },
    }
}

proof fn lemma_keep_gains_keeps(gs: Seq<GainV>, now: u32, g: GainV)
    requires
        gs.contains(g),
        sat_sub(now, g.2) <= CHAT_GAIN_BUFFER_LIFETIME_SECS,
    ensures
        keep_gains(gs, now).contains(g),
    decreases gs.len(),
{
    let rest = keep_gains(gs.drop_last(), now);
    if gs.last() == g {
        assert(keep_gains(gs, now) == rest.push(g));
        assert(keep_gains(gs, now)[rest.len() as int] == g);
    } else {
        let k = choose|k: int| 0 <= k < gs.len() && gs[k] == g;
        assert(k < gs.len() - 1);
        assert(gs.drop_last()[k] == g);
        lemma_keep_gains_keeps(gs.drop_last(), now, g);
        let i = choose|i: int| 0 <= i < rest.len() && rest[i] == g;
        assert(keep_gains(gs, now)[i] == g);
    }
}

#[verifier::spinoff_prover]
#[verifier::rlimit(80)]
proof fn lemma_branch_keeps_gains(f: ParserV, line: Seq<char>, kind: LineKind)
    requires
        kind != LineKind::AddItem,
        kind != LineKind::UpdateItemCode,
    ensures
        branch(f, line, kind).0.gains == f.gains,
{
    match kind {
        LineKind::StartInteraction => lemma_gains_kept_start(f, line),
        LineKind::RemoveFromStorage => lemma_gains_kept_remove(f, line),
        LineKind::DelayLoop => lemma_gains_kept_delay(f, line),
        LineKind::EndInteraction => lemma_gains_kept_end(f, line),
        LineKind::TalkScreen => lemma_gains_kept_talk(f, line),
        LineKind::VendorScreen => lemma_gains_kept_vendor(f, line),
        LineKind::ShowStorageVault => lemma_gains_kept_vault(f, line),
        _ => {},
    }
}

proof fn lemma_gains_kept_start(f: ParserV, line: Seq<char>)
    ensures
        start_interaction_step(f, line).0.gains == f.gains,
{
}

proof fn lemma_gains_kept_remove(f: ParserV, line: Seq<char>)
    ensures
        remove_storage_step(f, line).0.gains == f.gains,
{
}

proof fn lemma_gains_kept_delay(f: ParserV, line: Seq<char>)
    ensures
        delay_loop_step(f, line).0.gains == f.gains,
{
}

proof fn lemma_gains_kept_end(f: ParserV, line: Seq<char>)
    ensures
        end_interaction_step(f, line).0.gains == f.gains,
{
}

proof fn lemma_gains_kept_talk(f: ParserV, line: Seq<char>)
    ensures
        talk_screen_step(f, line).gains == f.gains,
{
}

proof fn lemma_gains_kept_vendor(f: ParserV, line: Seq<char>)
    ensures
        vendor_screen_step(f, line).gains == f.gains,
{
}

proof fn lemma_gains_kept_vault(f: ParserV, line: Seq<char>)
    ensures
        storage_vault_step(f, line).gains == f.gains,
{
}

/// A line that cannot take a buffered chat gain (anything but a new,
/// slotless item of the gain's name, or a code update of an instance with
/// no recorded stack) and is not dated past the gain's buffer lifetime
/// leaves the gain buffered.
pub open spec fn keeps_gain(s: ParserV, line: Seq<char>, g: GainV) -> bool {
    &&& line_timestamp(line) matches Some(ts) ==> sat_sub(secs(ts), g.2) <= CHAT_GAIN_BUFFER_LIFETIME_SECS
    &&& line_kind(line) == LineKind::AddItem ==> match add_item_fields(line) {
        Some(f) => !(f.1 == g.0 && f.4 && f.3 < 0),
        None => true,
    }
    &&& line_kind(line) == LineKind::UpdateItemCode ==> match update_item_fields(line) {
        Some(u) => s.stacks.contains_key(u.1),
        None => true,
    }
}

proof fn lemma_add_keeps_gain(f: ParserV, line: Seq<char>, g: GainV)
    requires
        f.gains.contains(g),
        match add_item_fields(line) {
            Some(a) => !(a.1 == g.0 && a.4 && a.3 < 0),
            None => true,
        },
    ensures
        add_item_step(f, line).0.gains.contains(g),
{
    match add_item_fields(line) {
        Some((ts, name, inst, slot, is_new)) => {
            if is_new && slot < 0 {
                let at = secs(ts);
                lemma_best_gain(f.gains, name, at, 0, None, u32::MAX as int);
                match best_gain(f.gains, name, at, 0, None, u32::MAX as int) {
                    Some(b) => {
                        let gs = f.gains;
                        let r = gs.update(b, gs.last()).drop_last();
                        let j = choose|j: int| 0 <= j < gs.len() && gs[j] == g;
                        assert(j != b);
                        if j < gs.len() - 1 {
                            assert(r[j] == g);
                        } else {
                            assert(r[b] == g);
                        }
                    },
                    None => {},
                }
            }
        },
        None => {},
    }
}

proof fn lemma_update_keeps_gains(f: ParserV, line: Seq<char>)
    requires
        match update_item_fields(line) {
            Some(u) => f.stacks.contains_key(u.1),
            None => true,
        },
    ensures
        update_item_step(f, line).0.gains == f.gains,
{
}

/// A buffered chat gain stays buffered across a line that keeps it.
#[verifier::spinoff_prover]
#[verifier::rlimit(60)]
pub proof fn law_gain_survives_line(s: ParserV, line: Seq<char>, g: GainV)
    requires
        s.gains.contains(g),
        keeps_gain(s, line, g),
    ensures
        step(s, line).0.gains.contains(g),
{
    let s1 = expire_at(s, line);
    match line_timestamp(line) {
        Some(ts) => lemma_keep_gains_keeps(s.gains, secs(ts), g),
        None => {},
    }
    assert(s1.gains.contains(g));
    assert(s1.stacks == s.stacks);
    let f = flushed(s1);
    let kind = line_kind(line);
    if kind == LineKind::AddItem {
        lemma_add_keeps_gain(f, line, g);
    } else if kind == LineKind::UpdateItemCode {
        lemma_update_keeps_gains(f, line);
    } else {
        lemma_branch_keeps_gains(f, line, kind);
    }
}

/// The state after a run of lines.
pub open spec fn run(s: ParserV, lines: Seq<Seq<char>>) -> ParserV
    decreases lines.len(),
{
    if lines.len() == 0 {
        s
    } else {
        step(run(s, lines.drop_last()), lines.last()).0
    }
}

/// A buffered chat gain stays buffered across a run of lines each of which
/// keeps it.
pub proof fn law_gain_survives_run(s: ParserV, lines: Seq<Seq<char>>, g: GainV)
    requires
        s.gains.contains(g),
        forall|i: int| 0 <= i < lines.len() ==> keeps_gain(run(s, lines.take(i)), #[trigger] lines[i], g),
    ensures
        run(s, lines).gains.contains(g),
    decreases lines.len(),
{
    if lines.len() > 0 {
        let d = lines.drop_last();
        assert forall|i: int| 0 <= i < d.len() implies keeps_gain(run(s, d.take(i)), #[trigger] d[i], g) by {
            assert(d.take(i) == lines.take(i));
            assert(d[i] == lines[i]);
            assert(keeps_gain(run(s, lines.take(i)), lines[i], g));
        }
        law_gain_survives_run(s, d, g);
        assert(lines.take(d.len() as int) == d);
        assert(keeps_gain(run(s, lines.take(d.len() as int)), lines[d.len() as int], g));
        law_gain_survives_line(run(s, d), lines.last(), g);
    }
}

/// A new, slotless item of a buffered gain's name added within the match
/// window of the gain takes the gain's quantity when no other buffered
/// gain of that name is as close; its stack starts at that quantity.
pub proof fn law_buffered_gain_sets_quantity(
    s: ParserV,
    g: GainV,
    line: Seq<char>,
    ts: Seq<char>,
    inst: u64,
    slot: i32,
)
    requires
        s.gains.contains(g),
        contains(line, "LocalPlayer: Process"@),
        line_kind(line) == LineKind::AddItem,
        add_item_fields(line) == Some((ts, g.0, inst, slot, true)),
        slot < 0,
        resolve(expire_at(s, line), line) is None,
        gain_dist(g, secs(ts)) <= CHAT_GAIN_MATCH_WINDOW_SECS,
        forall|j: int|
            0 <= j < s.gains.len() && s.gains[j].0 == g.0 && s.gains[j] != g ==> gain_dist(
                #[trigger] s.gains[j],
                secs(ts),
            ) > gain_dist(g, secs(ts)),
    ensures
        ({
            let (s2, out) = step(s, line);
            &&& out.len() > 0
            &&& out.last() matches EventV::ItemAdded { initial_quantity, .. } && initial_quantity == g.1
            &&& s2.stacks[inst] == g.1
        }),
{
    let now = secs(ts);
    assert(line_timestamp(line) == Some(ts));
    let gs = keep_gains(s.gains, now);
    lemma_keep_gains_keeps(s.gains, now, g);
    lemma_keep_gains_from(s.gains, now);
    law_chat_gain_match(gs, g.0, now);
    let a = choose|a: int| 0 <= a < gs.len() && gs[a] == g;
    match consume_gain(gs, g.0, now) {
        Some((q, rest)) => {
            let b = choose|b: int|
                0 <= b < gs.len() && gs[b].0 == g.0 && gs[b].1 == q && gain_dist(#[trigger] gs[b], now)
                    <= CHAT_GAIN_MATCH_WINDOW_SECS && rest.len() == gs.len() - 1 && (forall|j: int|
                    0 <= j < gs.len() && gs[j].0 == g.0 ==> gain_dist(gs[j], now) >= gain_dist(
                        gs[b],
                        now,
                    ));
            assert(gain_dist(gs[a], now) >= gain_dist(gs[b], now));
            if gs[b] != g {
                assert(s.gains.contains(gs[b]));
                let c = choose|c: int| 0 <= c < s.gains.len() && s.gains[c] == gs[b];
                assert(gain_dist(s.gains[c], now) > gain_dist(g, now));
            }
            assert(q == g.1);
        },
        None => {
            assert(gain_dist(gs[a], now) <= CHAT_GAIN_MATCH_WINDOW_SECS);
        },
    }
}

/// A chat gain fed at `hms` leaves the activity contexts as they are, and
/// gives its quantity to a new, slotless item of its name added later,
/// within the match window of it, after lines that each keep the gain
/// buffered, when no other buffered gain of that name is as close then.
pub proof fn law_fed_gain_reaches_later_add(
    s: ParserV,
    name: Seq<char>,
    quantity: u32,
    hms: Seq<char>,
    lines: Seq<Seq<char>>,
    line: Seq<char>,
    ts: Seq<char>,
    inst: u64,
    slot: i32,
)
    requires
        forall|i: int|
            0 <= i < lines.len() ==> keeps_gain(
                run(gain_step(s, name, quantity, hms), lines.take(i)),
                #[trigger] lines[i],
                (name, quantity, secs(hms)),
            ),
        contains(line, "LocalPlayer: Process"@),
        line_kind(line) == LineKind::AddItem,
        add_item_fields(line) == Some((ts, name, inst, slot, true)),
        slot < 0,
        resolve(expire_at(run(gain_step(s, name, quantity, hms), lines), line), line) is None,
        gain_dist((name, quantity, secs(hms)), secs(ts)) <= CHAT_GAIN_MATCH_WINDOW_SECS,
        forall|j: int|
            0 <= j < run(gain_step(s, name, quantity, hms), lines).gains.len() && run(
                gain_step(s, name, quantity, hms),
                lines,
            ).gains[j].0 == name && run(gain_step(s, name, quantity, hms), lines).gains[j] != (
            name,
            quantity,
            secs(hms),
        ) ==> gain_dist(
                #[trigger] run(gain_step(s, name, quantity, hms), lines).gains[j],
                secs(ts),
            ) > gain_dist((name, quantity, secs(hms)), secs(ts)),
    ensures
        gain_step(s, name, quantity, hms).contexts == s.contexts,
        ({
            let (s2, out) = step(run(gain_step(s, name, quantity, hms), lines), line);
            &&& out.len() > 0
            &&& out.last() matches EventV::ItemAdded { initial_quantity, .. } && initial_quantity
                == quantity
            &&& s2.stacks[inst] == quantity
        }),
{
    let g = (name, quantity, secs(hms));
    let s0 = gain_step(s, name, quantity, hms);
    assert(s0.gains[s0.gains.len() - 1] == g);
    law_gain_survives_run(s0, lines, g);
    law_buffered_gain_sets_quantity(run(s0, lines), g, line, ts, inst, slot);
}

/// A new, slotless item with no buffered gain of its name within the match
/// window starts at a quantity of one.
pub proof fn law_add_without_gain_is_one(s: ParserV, line: Seq<char>, ts: Seq<char>, name: Seq<char>, inst: u64, slot: i32)
    requires
        contains(line, "LocalPlayer: Process"@),
        line_kind(line) == LineKind::AddItem,
        add_item_fields(line) == Some((ts, name, inst, slot, true)),
        slot < 0,
        resolve(expire_at(s, line), line) is None,
        forall|j: int|
            0 <= j < s.gains.len() && s.gains[j].0 == name ==> gain_dist(#[trigger] s.gains[j], secs(ts))
                > CHAT_GAIN_MATCH_WINDOW_SECS,
    ensures
        ({
            let (s2, out) = step(s, line);
            &&& out.len() > 0
            &&& out.last() matches EventV::ItemAdded { initial_quantity, .. } && initial_quantity == 1
        }),
{
    let now = secs(ts);
    assert(line_timestamp(line) == Some(ts));
    let gs = keep_gains(s.gains, now);
    lemma_keep_gains_from(s.gains, now);
    law_chat_gain_match(gs, name, now);
    match consume_gain(gs, name, now) {
        Some((q, rest)) => {
            let b = choose|b: int|
                0 <= b < gs.len() && gs[b].0 == name && gs[b].1 == q && gain_dist(#[trigger] gs[b], now)
                    <= CHAT_GAIN_MATCH_WINDOW_SECS && rest.len() == gs.len() - 1 && (forall|j: int|
                    0 <= j < gs.len() && gs[j].0 == name ==> gain_dist(gs[j], now) >= gain_dist(
                        gs[b],
                        now,
                    ));
            assert(s.gains.contains(gs[b]));
            let c = choose|c: int| 0 <= c < s.gains.len() && s.gains[c] == gs[b];
            assert(gain_dist(s.gains[c], now) > CHAT_GAIN_MATCH_WINDOW_SECS);
        },
        None => {},
    }
}

} // verus!
