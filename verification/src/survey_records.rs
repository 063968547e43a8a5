//! Records the survey tracker reads back for its views, and the arithmetic
//! done on them: a session's economics rollup, its duration, and how its
//! recorded bounds are corrected when it ends.

use vstd::prelude::*;
use crate::survey_types::{SurveySession, SurveyUse};
use crate::calendar::{naive_datetime_parts, parse_naive_datetime};

verus! {

/// Earliest and latest event timestamps attributed to a session; both
/// absent when it has none.
#[derive(Debug, Clone)]
pub struct SessionTimeBounds {
    pub earliest: Option<String>,
    pub latest: Option<String>,
}

/// How a session's stored bounds change when it ends.
#[derive(Debug, Clone, PartialEq, Eq)]
pub enum BoundsUpdate {
    /// Set both `started_at` and `ended_at`.
    StartAndEnd { started_at: String, ended_at: String },
    /// Set `ended_at` only, and only where it is still unset.
    EndIfOpen { ended_at: String },
}

/// The stored bounds follow the attributed events: start at the earliest,
/// end at the latest (or the fallback when nothing was attributed); a
/// session with no events only gets its end.
pub fn bounds_update(bounds: &SessionTimeBounds, fallback_ended_at: &str) -> (r: BoundsUpdate)
    ensures
        match r {
            BoundsUpdate::StartAndEnd { started_at, ended_at } => bounds.earliest matches Some(e)
                && started_at@ == e@ && ended_at@ == match bounds.latest {
                Some(l) => l@,
                None => fallback_ended_at@,
            },
            BoundsUpdate::EndIfOpen { ended_at } => bounds.earliest is None && ended_at@
                == match bounds.latest {
                Some(l) => l@,
                None => fallback_ended_at@,
            },
        },
{
    let ended = match &bounds.latest {
        Some(l) => l.clone(),
        None => fallback_ended_at.to_string(),
    };
    match &bounds.earliest {
        Some(e) => BoundsUpdate::StartAndEnd { started_at: e.clone(), ended_at: ended },
        None => BoundsUpdate::EndIfOpen { ended_at: ended },
    }
}

/// One row of `open_multihit_nodes`.
#[derive(Debug, Clone)]
pub struct OpenMultihitNode {
    pub node_entity_id: i64,
    pub character_name: String,
    pub server_name: String,
    pub survey_use_id: i64,
    pub opened_at: String,
    pub last_hit_at: String,
}

/// Live tracker status: the active session and the open multihit nodes.
#[derive(Debug, Clone)]
pub struct SurveyTrackerStatus {
    pub active_session: Option<SurveySession>,
    pub open_multihit_nodes: Vec<MultihitSummary>,
}

#[derive(Debug, Clone)]
pub struct MultihitSummary {
    pub node_entity_id: i64,
    pub survey_use_id: i64,
    pub map_display_name: String,
    pub opened_at: String,
    pub last_hit_at: String,
    /// Loot attributed to the originating use so far.
    pub loot_qty: u32,
}

/// A session with its uses, loot, economics and crafting materials.
#[derive(Debug, Clone)]
pub struct SurveySessionDetail {
    pub session: SurveySession,
    pub uses: Vec<SurveyUse>,
    pub loot_summary: Vec<LootSummaryRow>,
    pub economics: SessionEconomics,
    pub craft_materials: Vec<CraftMaterialRow>,
}

/// One ingredient of the maps crafted in a session.
#[derive(Debug, Clone)]
pub struct CraftMaterialRow {
    pub item_name: String,
    pub item_type_id: Option<i64>,
    pub total_quantity: i64,
    pub unit_cost: Option<i64>,
    pub total_cost: Option<i64>,
}

/// Cost, revenue and profit of a session.
#[derive(Debug, Clone, Copy, PartialEq, Eq, Structural)]
pub struct SessionEconomics {
    pub cost_total: i64,
    pub revenue_total: i64,
    pub bonus_revenue_total: i64,
    pub profit_total: i64,
    /// Loot rows with a unit value.
    pub items_priced: u32,
    /// Loot rows without one.
    pub items_unpriced: u32,
}

/// One item of a session's loot.
#[derive(Debug, Clone)]
pub struct LootSummaryRow {
    pub item_name: String,
    pub item_type_id: Option<i64>,
    pub total_qty: i64,
    /// Non-bonus drops.
    pub primary_qty: i64,
    /// Speed-bonus drops.
    pub bonus_qty: i64,
    pub unit_value: Option<i64>,
    /// `total_qty * unit_value`, when the unit value is known.
    pub total_value: Option<i64>,
}

/// One session of the history list with its rollups.
#[derive(Debug, Clone)]
pub struct HistoricalSessionRow {
    pub session: SurveySession,
    pub total_uses: u32,
    pub basic_uses: u32,
    pub motherlode_uses: u32,
    pub multihit_uses: u32,
    pub total_loot_qty: u32,
    /// `ended_at - started_at` in seconds; absent for active sessions.
    pub duration_seconds: Option<i64>,
    pub economics: SessionEconomics,
    pub loot_summary: Vec<LootSummaryRow>,
    pub zones: Vec<String>,
}

/// One zone of the analytics table.
#[derive(Debug, Clone)]
pub struct ZoneSummary {
    pub area: String,
    pub total_uses: u32,
    pub basic_uses: u32,
    pub motherlode_uses: u32,
    pub multihit_uses: u32,
    pub total_loot_qty: u32,
    pub basic_uses_with_bonus: u32,
    pub bonus_items_total: u32,
    pub items: Vec<ItemSummary>,
}

/// One item of the analytics table.
#[derive(Debug, Clone)]
pub struct ItemSummary {
    pub item_name: String,
    pub total_qty: i64,
    pub primary_qty: i64,
    pub bonus_qty: i64,
    pub times_received: i64,
}

// ============================================================
// Economics
// ============================================================

/// The view of a loot row the rollup reads: unit value, total value and
/// bonus quantity.
pub open spec fn loot_v(r: LootSummaryRow) -> (Option<i64>, Option<i64>, i64) {
    (r.unit_value, r.total_value, r.bonus_qty)
}

/// Sum of the known total values.
pub open spec fn revenue_sum(rows: Seq<(Option<i64>, Option<i64>, i64)>) -> int
    decreases rows.len(),
{
    if rows.len() == 0 {
        0
    } else {
        revenue_sum(rows.drop_last()) + match rows.last().1 {
            Some(v) => v as int,
            None => 0,
        }
    }
}

/// Sum of unit value × bonus quantity over the rows with a unit value.
pub open spec fn bonus_sum(rows: Seq<(Option<i64>, Option<i64>, i64)>) -> int
    decreases rows.len(),
{
    if rows.len() == 0 {
        0
    } else {
        bonus_sum(rows.drop_last()) + match rows.last().0 {
            Some(v) => v * rows.last().2,
            None => 0,
        }
    }
}

/// Number of rows with a unit value.
pub open spec fn priced_count(rows: Seq<(Option<i64>, Option<i64>, i64)>) -> nat
    decreases rows.len(),
{
    if rows.len() == 0 {
        0
    } else {
        priced_count(rows.drop_last()) + if rows.last().0 is Some {
            1nat
        } else {
            0nat
        }
    }
}

pub open spec fn in_i64(x: int) -> bool {
    i64::MIN <= x <= i64::MAX
}

/// Every running sum of the rollup stays within `i64`.
pub open spec fn rollup_fits(rows: Seq<(Option<i64>, Option<i64>, i64)>, cost_total: i64) -> bool {
    &&& forall|k: int| 0 <= k <= rows.len() ==> in_i64(#[trigger] revenue_sum(rows.take(k)))
    &&& forall|k: int| 0 <= k <= rows.len() ==> in_i64(#[trigger] bonus_sum(rows.take(k)))
    &&& forall|k: int|
        0 <= k < rows.len() ==> ((#[trigger] rows[k]).0 matches Some(v) ==> in_i64(v * rows[k].2))
    &&& in_i64(revenue_sum(rows) - cost_total)
}

pub open spec fn loot_rows_view(loot: Seq<LootSummaryRow>) -> Seq<(Option<i64>, Option<i64>, i64)> {
    loot.map_values(|r: LootSummaryRow| loot_v(r))
}

/// The economics of a session from its map cost and its loot: revenue is
/// the sum of the known total values, bonus revenue the sum of unit value
/// × bonus quantity, profit revenue minus cost, and rows are counted by
/// whether their unit value is known.
pub fn economics_rollup(cost_total: i64, loot: &[LootSummaryRow]) -> (r: SessionEconomics)
    requires
        rollup_fits(loot_rows_view(loot@), cost_total),
    ensures
        r.cost_total == cost_total,
        r.revenue_total == revenue_sum(loot_rows_view(loot@)),
        r.bonus_revenue_total == bonus_sum(loot_rows_view(loot@)),
        r.profit_total == revenue_sum(loot_rows_view(loot@)) - cost_total,
        r.items_priced == priced_count(loot_rows_view(loot@)) as u32,
        r.items_unpriced == (loot@.len() - priced_count(loot_rows_view(loot@))) as u32,
{
    let ghost rows = loot_rows_view(loot@);
    let mut revenue: i64 = 0;
    let mut bonus: i64 = 0;
    let mut priced: usize = 0;
    let mut i: usize = 0;
    let n = loot.len();
    while i < n
        invariant
            i <= n == loot@.len() == rows.len(),
            rows == loot_rows_view(loot@),
            rollup_fits(rows, cost_total),
            revenue as int == revenue_sum(rows.take(i as int)),
            bonus as int == bonus_sum(rows.take(i as int)),
            priced as int == priced_count(rows.take(i as int)),
            priced <= i,
        decreases n - i,
    {
        let row = &loot[i];
        proof {
            assert(rows.take(i + 1).drop_last() =~= rows.take(i as int));
            assert(rows.take(i + 1).last() == rows[i as int]);
            assert(rows[i as int] == loot_v(loot@[i as int]));
            assert(in_i64(revenue_sum(rows.take(i + 1))));
            assert(in_i64(bonus_sum(rows.take(i + 1))));
        }
        match row.total_value {
            Some(v) => {
                revenue = revenue + v;
            },
            None => {},
        }
        match row.unit_value {
            Some(u) => {
                let b = u * row.bonus_qty;
                bonus = bonus + b;
                priced = priced + 1;
            },
            None => {},
        }
        i += 1;
    }
    assert(rows.take(n as int) =~= rows);
    SessionEconomics {
        cost_total,
        revenue_total: revenue,
        bonus_revenue_total: bonus,
        profit_total: revenue - cost_total,
        items_priced: priced as u32,
        items_unpriced: (n - priced) as u32,
    }
}

// ============================================================
// Durations
// ============================================================

/// The epoch second of a `%Y-%m-%d %H:%M:%S` text, when it parses.
pub open spec fn datetime_second(s: Seq<char>) -> Option<i64> {
    match naive_datetime_parts(s) {
        Some(p) => Some(p.0),
        None => None,
    }
}

/// Seconds from start to end: absent when either does not parse or when
/// the end comes first.
pub open spec fn duration_between(start: Option<i64>, end: Option<i64>) -> Option<i64> {
    match (start, end) {
        (Some(s), Some(e)) => if e >= s && e - s <= i64::MAX {
            Some((e - s) as i64)
        } else {
            None
        },
        _ => None,
    }
}

/// Duration of a session from its start and (optional) end texts.
pub fn compute_duration_seconds(started_at: &str, ended_at: Option<&str>) -> (r: Option<i64>)
    ensures
        r == match ended_at {
            None => None,
            Some(e) => duration_between(
                datetime_second(started_at@),
                datetime_second(e@),
            ),
        },
{
    let end = ended_at?;
    let s = parse_naive_datetime(started_at)?.0;
    let e = parse_naive_datetime(end)?.0;
    if e < s {
        return None;
    }
    let diff: i128 = e as i128 - s as i128;
    if diff > 9223372036854775807i128 {
        return None;
    }
    Some(diff as i64)
}

} // verus!
