use std::collections::VecDeque;
use glogger_core::player_events::{ActivitySource, AttributionConfidence, ItemProvenance};
use glogger_core::survey_logic::{
    AttributionAction, AttributionState, MotherlodeStep, PendingUse, attribute_gain, record_use, expire_pending_uses, inject_survey_use_id_into, is_mining_loop,
    last_basic_pending, motherlode_decision, parse_secs_of_day, read_provenance_kind,
    take_pending_for_mining,
};
use glogger_core::survey_records::{
    BoundsUpdate, LootSummaryRow, SessionTimeBounds, bounds_update, compute_duration_seconds,
    economics_rollup,
};
use glogger_core::survey_types::{
    SessionStartTrigger, SurveyUseKind, SurveyUseStatus, parse_zone_from_internal_name,
};

#[test]
fn parses_geology_surveys() {
    assert_eq!(
        parse_zone_from_internal_name("GeologySurveyEltibule2"),
        Some("Eltibule".to_string()),
    );
    assert_eq!(
        parse_zone_from_internal_name("GeologySurveyKurMountains3"),
        Some("KurMountains".to_string()),
    );
}

#[test]
fn parses_mining_surveys_including_x_suffix() {
    assert_eq!(
        parse_zone_from_internal_name("MiningSurveySouthSerbule1X"),
        Some("SouthSerbule".to_string()),
    );
    assert_eq!(
        parse_zone_from_internal_name("MiningSurveyPovus7Y"),
        // The 'Y' suffix is not part of the convention, so it stays.
        Some("Povus7Y".to_string()),
    );
}

#[test]
fn returns_none_for_unrecognized_prefixes() {
    assert_eq!(parse_zone_from_internal_name("CookingSurveyEltibule1"), None);
    assert_eq!(parse_zone_from_internal_name("GeologySurvey"), None);
    assert_eq!(parse_zone_from_internal_name(""), None);
}

#[test]
fn test_inject_survey_use_id_helper() {
    let mut prov = ItemProvenance::Attributed {
        source: ActivitySource::Mining {
            node_entity_id: Some(99),
            node_name: None,
        },
        confidence: AttributionConfidence::Confident,
        survey_use_id: None,
    };
    inject_survey_use_id_into(&mut prov, 42);
    match prov {
        ItemProvenance::Attributed { survey_use_id, .. } => {
            assert_eq!(survey_use_id, Some(42));
        }
        _ => panic!("expected Attributed"),
    }

    // No-op for non-Attributed
    let mut prov2 = ItemProvenance::UnknownSource;
    inject_survey_use_id_into(&mut prov2, 99);
    assert_eq!(prov2, ItemProvenance::UnknownSource);
}

#[test]
fn test_is_mining_loop_normalizes_label_variants() {
    assert!(is_mining_loop("ChopLumber", "Mining..."));
    assert!(is_mining_loop("ChopLumber", "Mining ..."));
    assert!(is_mining_loop("ChopLumber", "Mining"));
    assert!(!is_mining_loop("ChopLumber", "Surveying"));
    assert!(!is_mining_loop("Cook", "Mining..."));
}

#[test]
fn test_parse_secs_of_day() {
    assert_eq!(parse_secs_of_day("00:00:00"), Some(0));
    assert_eq!(parse_secs_of_day("01:02:03"), Some(3723));
    assert_eq!(parse_secs_of_day("23:59:59"), Some(86399));
    assert_eq!(parse_secs_of_day("garbage"), None);
    assert_eq!(parse_secs_of_day("12:30"), None);
}

#[test]
fn survey_texts_round_trip() {
    for t in [SessionStartTrigger::Manual, SessionStartTrigger::Crafting, SessionStartTrigger::FirstUse] {
        assert_eq!(SessionStartTrigger::from_str(t.as_str()), Some(t));
    }
    for k in [SurveyUseKind::Basic, SurveyUseKind::Motherlode, SurveyUseKind::Multihit] {
        assert_eq!(SurveyUseKind::from_str(k.as_str()), Some(k));
    }
    for s in [
        SurveyUseStatus::PendingLoot,
        SurveyUseStatus::Completed,
        SurveyUseStatus::Aborted,
        SurveyUseStatus::Unknown,
    ] {
        assert_eq!(SurveyUseStatus::from_str(s.as_str()), Some(s));
    }
    assert_eq!(SessionStartTrigger::Crafting.as_str(), "crafting");
    assert_eq!(SurveyUseKind::Motherlode.as_str(), "motherlode");
    assert_eq!(SurveyUseStatus::PendingLoot.as_str(), "pending_loot");
    assert_eq!(SurveyUseKind::from_str("Basic"), None);
    assert_eq!(SurveyUseStatus::from_str(""), None);
}

#[test]
fn provenance_kind_reads_mining_node_and_survey_use() {
    let mining = ItemProvenance::Attributed {
        source: ActivitySource::Mining { node_entity_id: Some(7), node_name: None },
        confidence: AttributionConfidence::Probable,
        survey_use_id: None,
    };
    assert_eq!(read_provenance_kind(&mining), (Some(7), false));
    let survey = ItemProvenance::Attributed {
        source: ActivitySource::SurveyMapUse { survey_map_internal_name: None },
        confidence: AttributionConfidence::Confident,
        survey_use_id: None,
    };
    assert_eq!(read_provenance_kind(&survey), (None, true));
    assert_eq!(read_provenance_kind(&ItemProvenance::NotApplicable), (None, false));
}

fn pending(id: i64, kind: SurveyUseKind, at: u32) -> PendingUse {
    PendingUse { survey_use_id: id, kind, used_at_secs: at }
}

#[test]
fn pending_uses_expire_from_the_front() {
    let mut q = VecDeque::from(vec![
        pending(1, SurveyUseKind::Basic, 100),
        pending(2, SurveyUseKind::Motherlode, 150),
        pending(3, SurveyUseKind::Basic, 100),
    ]);
    expire_pending_uses(&mut q, 205);
    // 1 is 105s old and goes; 2 is 55s old and stops the sweep, so 3 stays.
    let ids: Vec<i64> = q.iter().map(|p| p.survey_use_id).collect();
    assert_eq!(ids, vec![2, 3]);
}

#[test]
fn mining_gain_takes_first_use_in_grace_window() {
    let mut q = VecDeque::from(vec![
        pending(1, SurveyUseKind::Multihit, 0),
        pending(2, SurveyUseKind::Motherlode, 50),
        pending(3, SurveyUseKind::Multihit, 60),
    ]);
    let p = take_pending_for_mining(&mut q, 100).expect("use within 60s");
    assert_eq!(p.survey_use_id, 2);
    let ids: Vec<i64> = q.iter().map(|p| p.survey_use_id).collect();
    assert_eq!(ids, vec![1, 3]);
    let mut empty: VecDeque<PendingUse> = VecDeque::new();
    assert!(take_pending_for_mining(&mut empty, 100).is_none());
}

#[test]
fn basic_gain_goes_to_most_recent_basic_use() {
    let q = VecDeque::from(vec![
        pending(1, SurveyUseKind::Basic, 0),
        pending(2, SurveyUseKind::Basic, 1),
        pending(3, SurveyUseKind::Motherlode, 2),
    ]);
    assert_eq!(last_basic_pending(&q), Some(1));
    let q2 = VecDeque::from(vec![pending(3, SurveyUseKind::Motherlode, 2)]);
    assert_eq!(last_basic_pending(&q2), None);
}

#[test]
fn motherlode_collects_within_one_second_of_first_gain() {
    let active = Some((435138u32, 42i64, 1000u32));
    assert_eq!(motherlode_decision(active, 435138, Some(1001)), MotherlodeStep::Attribute(42));
    assert_eq!(motherlode_decision(active, 435138, Some(1002)), MotherlodeStep::Complete(42));
    assert_eq!(motherlode_decision(active, 7, Some(1000)), MotherlodeStep::Complete(42));
    assert_eq!(motherlode_decision(active, 435138, None), MotherlodeStep::Complete(42));
    assert_eq!(motherlode_decision(None, 435138, Some(1000)), MotherlodeStep::Idle);
}

fn loot(unit: Option<i64>, total_qty: i64, bonus_qty: i64) -> LootSummaryRow {
    LootSummaryRow {
        item_name: "X".to_string(),
        item_type_id: None,
        total_qty,
        primary_qty: total_qty - bonus_qty,
        bonus_qty,
        unit_value: unit,
        total_value: unit.map(|u| u * total_qty),
    }
}

#[test]
fn economics_rollup_sums_priced_rows() {
    let rows = vec![loot(Some(10), 5, 2), loot(None, 3, 0), loot(Some(7), 2, 1)];
    let e = economics_rollup(30, &rows);
    assert_eq!(e.cost_total, 30);
    assert_eq!(e.revenue_total, 64);
    assert_eq!(e.bonus_revenue_total, 27);
    assert_eq!(e.profit_total, 34);
    assert_eq!(e.items_priced, 2);
    assert_eq!(e.items_unpriced, 1);
    let empty = economics_rollup(0, &[]);
    assert_eq!(empty.revenue_total, 0);
    assert_eq!(empty.items_priced + empty.items_unpriced, 0);
}

#[test]
fn session_bounds_follow_attributed_events() {
    let b = SessionTimeBounds {
        earliest: Some("2026-04-13 10:00:00".to_string()),
        latest: Some("2026-04-13 11:00:00".to_string()),
    };
    assert_eq!(
        bounds_update(&b, "2026-04-14 00:00:00"),
        BoundsUpdate::StartAndEnd {
            started_at: "2026-04-13 10:00:00".to_string(),
            ended_at: "2026-04-13 11:00:00".to_string(),
        }
    );
    let none = SessionTimeBounds { earliest: None, latest: None };
    assert_eq!(
        bounds_update(&none, "2026-04-14 00:00:00"),
        BoundsUpdate::EndIfOpen { ended_at: "2026-04-14 00:00:00".to_string() }
    );
}

#[test]
fn session_duration_in_seconds() {
    assert_eq!(
        compute_duration_seconds("2026-04-13 10:00:00", Some("2026-04-13 11:30:05")),
        Some(5405)
    );
    assert_eq!(compute_duration_seconds("2026-04-13 10:00:00", None), None);
    assert_eq!(
        compute_duration_seconds("2026-04-13 10:00:00", Some("2026-04-13 09:00:00")),
        None
    );
    assert_eq!(compute_duration_seconds("garbage", Some("2026-04-13 09:00:00")), None);
}

#[test]
fn test_compute_duration_seconds_handles_clock_skew() {
    assert_eq!(
        compute_duration_seconds("2026-04-15 12:00:00", Some("2026-04-15 11:00:00")),
        None
    );
}

#[test]
fn basic_gain_waits_for_its_map() {
    let mut st = AttributionState::new();
    st.pending_uses.push_back(pending(7, SurveyUseKind::Multihit, 100));
    let acts = attribute_gain(&mut st, (3, None, true), Some("01:02:03".to_string()), Some(3723), None);
    assert_eq!(acts, vec![AttributionAction::Defer { qty: 3 }]);
    assert_eq!(st.deferred.len(), 1);
    assert_eq!(st.deferred[0].qty, 3);
    assert_eq!(st.deferred[0].timestamp_hms.as_deref(), Some("01:02:03"));
    assert_eq!(st.pending_uses.len(), 1);
    assert_eq!(st.last_basic_use_for_bonus, None);
}

#[test]
fn basic_gain_completes_latest_basic_use() {
    let mut st = AttributionState::new();
    st.pending_uses.push_back(pending(1, SurveyUseKind::Basic, 10));
    st.pending_uses.push_back(pending(2, SurveyUseKind::Basic, 20));
    st.pending_uses.push_back(pending(3, SurveyUseKind::Multihit, 30));
    let acts = attribute_gain(&mut st, (2, None, true), None, Some(40), None);
    assert_eq!(
        acts,
        vec![
            AttributionAction::AddLoot { use_id: 2, qty: 2 },
            AttributionAction::Inject { use_id: 2 },
            AttributionAction::Complete { use_id: 2 },
        ]
    );
    let left: Vec<i64> = st.pending_uses.iter().map(|p| p.survey_use_id).collect();
    assert_eq!(left, vec![1, 3]);
    assert_eq!(st.last_basic_use_for_bonus, Some(2));
    assert!(st.deferred.is_empty());
}

#[test]
fn multihit_use_is_adopted_by_new_node() {
    let mut st = AttributionState::new();
    st.pending_uses.push_back(pending(5, SurveyUseKind::Multihit, 1000));
    let acts = attribute_gain(&mut st, (4, Some(77), false), None, Some(1030), None);
    assert_eq!(
        acts,
        vec![
            AttributionAction::OpenNode { node: 77, use_id: 5 },
            AttributionAction::AddLoot { use_id: 5, qty: 4 },
            AttributionAction::Inject { use_id: 5 },
        ]
    );
    assert!(st.pending_uses.is_empty());
    assert_eq!(st.current_mining_node, Some(77));
    assert_eq!(st.active_motherlode, None);
}

#[test]
fn open_multihit_node_takes_the_gain() {
    let mut st = AttributionState::new();
    st.pending_uses.push_back(pending(5, SurveyUseKind::Multihit, 1000));
    let acts = attribute_gain(&mut st, (1, Some(77), false), None, Some(1010), Some(9));
    assert_eq!(
        acts,
        vec![
            AttributionAction::TouchNode { node: 77 },
            AttributionAction::AddLoot { use_id: 9, qty: 1 },
            AttributionAction::Inject { use_id: 9 },
        ]
    );
    assert_eq!(st.pending_uses.len(), 1);
}

#[test]
fn motherlode_collects_its_swing_then_completes() {
    let mut st = AttributionState::new();
    st.pending_uses.push_back(pending(8, SurveyUseKind::Motherlode, 500));
    st.pending_uses.push_back(pending(9, SurveyUseKind::Multihit, 505));
    let first = attribute_gain(&mut st, (2, Some(40), false), None, Some(520), None);
    assert_eq!(
        first,
        vec![AttributionAction::AddLoot { use_id: 8, qty: 2 }, AttributionAction::Inject { use_id: 8 }]
    );
    assert_eq!(st.active_motherlode, Some((40, 8, 520)));
    let second = attribute_gain(&mut st, (1, Some(40), false), None, Some(521), None);
    assert_eq!(
        second,
        vec![AttributionAction::AddLoot { use_id: 8, qty: 1 }, AttributionAction::Inject { use_id: 8 }]
    );
    let third = attribute_gain(&mut st, (3, Some(41), false), None, Some(530), None);
    assert_eq!(
        third,
        vec![
            AttributionAction::Complete { use_id: 8 },
            AttributionAction::OpenNode { node: 41, use_id: 9 },
            AttributionAction::AddLoot { use_id: 9, qty: 3 },
            AttributionAction::Inject { use_id: 9 },
        ]
    );
    assert_eq!(st.active_motherlode, None);
    assert_eq!(st.current_mining_node, Some(41));
    assert!(st.pending_uses.is_empty());
}

#[test]
fn gain_outside_grace_or_without_node_is_not_survey_loot() {
    let mut st = AttributionState::new();
    st.pending_uses.push_back(pending(5, SurveyUseKind::Multihit, 1000));
    assert!(attribute_gain(&mut st, (1, Some(3), false), None, Some(1061), None).is_empty());
    assert!(attribute_gain(&mut st, (1, None, false), None, Some(1001), None).is_empty());
    assert!(attribute_gain(&mut st, (1, Some(3), false), None, None, None).is_empty());
    assert_eq!(st.pending_uses.len(), 1);
}

#[test]
fn each_gain_is_booked_once_with_its_quantity() {
    let mut st = AttributionState::new();
    st.pending_uses.push_back(pending(1, SurveyUseKind::Basic, 10));
    st.pending_uses.push_back(pending(2, SurveyUseKind::Motherlode, 12));
    let gains = [(6, None, true), (6, None, true), (5, Some(4), false), (5, Some(4), false)];
    for g in gains {
        let before = st.pending_uses.len();
        let acts = attribute_gain(&mut st, g, None, Some(20), None);
        let booked: Vec<&AttributionAction> = acts
            .iter()
            .filter(|a| matches!(a, AttributionAction::AddLoot { .. } | AttributionAction::Defer { .. }))
            .collect();
        assert_eq!(booked.len(), 1);
        match booked[0] {
            AttributionAction::AddLoot { qty, .. } | AttributionAction::Defer { qty } => assert_eq!(*qty, g.0),
            _ => unreachable!(),
        }
        assert!(st.pending_uses.len() + 1 >= before && st.pending_uses.len() <= before);
    }
}

#[test]
fn recorded_basic_use_takes_the_deferred_gains() {
    let mut st = AttributionState::new();
    attribute_gain(&mut st, (2, None, true), Some("10:00:00".to_string()), Some(36000), None);
    attribute_gain(&mut st, (5, None, true), None, Some(36001), None);
    let none = record_use(&mut st, 7, SurveyUseKind::Multihit, 36002);
    assert!(none.is_empty());
    assert_eq!(st.deferred.len(), 2);
    let drained = record_use(&mut st, 8, SurveyUseKind::Basic, 36003);
    let qty: Vec<u32> = drained.iter().map(|g| g.qty).collect();
    assert_eq!(qty, vec![2, 5]);
    assert_eq!(drained[0].timestamp_hms.as_deref(), Some("10:00:00"));
    assert!(st.deferred.is_empty());
    let ids: Vec<i64> = st.pending_uses.iter().map(|p| p.survey_use_id).collect();
    assert_eq!(ids, vec![7, 8]);
    assert_eq!(st.pending_uses[1].used_at_secs, 36003);
}
