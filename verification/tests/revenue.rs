use glogger_core::revenue::{aggregate_revenue, aggregate_revenue_checked, Granularity, RevenueEvent};

fn rev(item: &str, event_at: &str, total: i64) -> RevenueEvent {
    RevenueEvent {
        item: item.into(),
        event_at: event_at.into(),
        price_total: total,
    }
}

#[test]
fn revenue_daily_pivot() {
    let events = vec![
        rev("Quality Reins", "2026-04-13 09:00:00", 4500),
        rev("Quality Reins", "2026-04-13 10:00:00", 4500),
        rev("Quality Reins", "2026-04-14 11:00:00", 4500),
        rev("Nice Saddle", "2026-04-13 12:00:00", 4000),
        rev("Nice Saddle", "2026-04-14 13:00:00", 4000),
    ];
    let r = aggregate_revenue(events, Granularity::Daily);
    assert_eq!(r.items, vec!["Nice Saddle", "Quality Reins"]);
    assert_eq!(r.periods.len(), 2);
    assert_eq!(r.periods[0].key, "2026-04-13");
    assert_eq!(r.periods[1].key, "2026-04-14");
    assert_eq!(r.grand_total, 4500 * 3 + 4000 * 2);
    assert_eq!(r.cells.len(), 4);
}

#[test]
fn revenue_monthly_collapses_days() {
    let events: Vec<_> = (1..=30)
        .map(|d| rev("Quality Reins", &format!("2026-04-{:02} 09:00:00", d), 100))
        .collect();
    let r = aggregate_revenue(events, Granularity::Monthly);
    assert_eq!(r.periods.len(), 1);
    assert_eq!(r.periods[0].key, "2026-04");
    assert_eq!(r.cells.len(), 1);
    assert_eq!(r.cells[0].revenue, 3000);
    assert_eq!(r.grand_total, 3000);
}

#[test]
fn revenue_multi_year_adds_year_suffix_to_daily_labels() {
    let events = vec![
        rev("Quality Reins", "2025-12-31 09:00:00", 100),
        rev("Quality Reins", "2026-01-01 09:00:00", 200),
    ];
    let r = aggregate_revenue(events, Granularity::Daily);
    assert!(r.periods[0].label.contains("2025") || r.periods[0].label.contains("2026"));
    assert!(r.periods[1].label.contains("2025") || r.periods[1].label.contains("2026"));
    assert_eq!(r.periods[0].label, "Dec 31 2025");
    assert_eq!(r.periods[1].label, "Jan 1 2026");
}

#[test]
fn revenue_single_year_omits_year_suffix() {
    let events = vec![
        rev("Quality Reins", "2026-04-13 09:00:00", 100),
        rev("Quality Reins", "2026-04-14 09:00:00", 200),
    ];
    let r = aggregate_revenue(events, Granularity::Daily);
    assert_eq!(r.periods[0].label, "Apr 13");
    assert_eq!(r.periods[1].label, "Apr 14");
}

#[test]
fn revenue_weekly_groups_by_iso_week() {
    let events = vec![
        rev("Quality Reins", "2026-04-13 09:00:00", 100),
        rev("Quality Reins", "2026-04-15 09:00:00", 200),
        rev("Quality Reins", "2026-04-20 09:00:00", 300),
    ];
    let r = aggregate_revenue(events, Granularity::Weekly);
    assert_eq!(r.periods.len(), 2);
    assert_eq!(r.periods[0].key, "2026-W16");
    assert_eq!(r.periods[1].key, "2026-W17");
}

#[test]
fn revenue_empty_input() {
    let r = aggregate_revenue(Vec::<RevenueEvent>::new(), Granularity::Daily);
    assert_eq!(r.grand_total, 0);
    assert!(r.items.is_empty());
    assert!(r.periods.is_empty());
    assert!(r.cells.is_empty());
}

#[test]
fn revenue_weekly_labels_span_monday_to_sunday() {
    let events = vec![rev("Quality Reins", "2026-04-15 09:00:00", 100)];
    let r = aggregate_revenue(events, Granularity::Weekly);
    assert_eq!(r.periods[0].label, "Apr 13 \u{2013} Apr 19");
}

#[test]
fn revenue_weekly_labels_carry_iso_year_across_years() {
    let events = vec![
        rev("Quality Reins", "2025-12-31 09:00:00", 100),
        rev("Quality Reins", "2026-01-05 09:00:00", 100),
    ];
    let r = aggregate_revenue(events, Granularity::Weekly);
    assert_eq!(r.periods[0].key, "2026-W01");
    assert_eq!(r.periods[0].label, "Dec 29 \u{2013} Jan 4 2026");
    assert_eq!(r.periods[1].key, "2026-W02");
}

#[test]
fn revenue_monthly_label_shows_year() {
    let events = vec![rev("Quality Reins", "2026-04-15 09:00:00", 100)];
    let r = aggregate_revenue(events, Granularity::Monthly);
    assert_eq!(r.periods[0].label, "Apr 2026");
}

#[test]
fn revenue_totals_and_cell_order() {
    let events = vec![
        rev("B", "2026-04-14 09:00:00", 5),
        rev("A", "2026-04-14 09:00:00", 7),
        rev("A", "2026-04-13 09:00:00", 11),
        rev("B", "2026-04-14 10:00:00", 13),
    ];
    let r = aggregate_revenue(events, Granularity::Daily);
    let cells: Vec<(String, String, i64)> = r
        .cells
        .iter()
        .map(|c| (c.item.clone(), c.period_key.clone(), c.revenue))
        .collect();
    assert_eq!(
        cells,
        vec![
            ("A".to_string(), "2026-04-13".to_string(), 11),
            ("A".to_string(), "2026-04-14".to_string(), 7),
            ("B".to_string(), "2026-04-14".to_string(), 18),
        ]
    );
    assert_eq!(r.row_totals, vec![("A".to_string(), 18), ("B".to_string(), 18)]);
    assert_eq!(
        r.col_totals,
        vec![("2026-04-13".to_string(), 11), ("2026-04-14".to_string(), 25)]
    );
    assert_eq!(r.grand_total, 36);
}

#[test]
fn revenue_skips_unparsable_timestamps() {
    let events = vec![
        rev("A", "not a time", 1000),
        rev("A", "2026-04-13 09:00:00", 5),
    ];
    let r = aggregate_revenue(events, Granularity::Daily);
    assert_eq!(r.grand_total, 5);
    assert_eq!(r.cells.len(), 1);
    assert_eq!(r.items, vec!["A"]);
}

#[test]
fn revenue_sums_that_come_back_within_i64_are_kept() {
    let events = vec![
        rev("Nice Saddle", "2026-04-13 09:00:00", i64::MAX),
        rev("Nice Saddle", "2026-04-13 10:00:00", -1),
    ];
    let r = aggregate_revenue_checked(events, Granularity::Daily).unwrap();
    assert_eq!(r.grand_total, i64::MAX - 1);
    assert_eq!(r.cells[0].revenue, i64::MAX - 1);
    // Cells that balance: the row walks MAX, then MAX - 1.
    let events = vec![
        rev("Nice Saddle", "2026-04-13 09:00:00", i64::MAX),
        rev("Nice Saddle", "2026-04-14 09:00:00", 1),
        rev("Nice Saddle", "2026-04-14 10:00:00", -2),
        rev("Nice Saddle", "garbage", i64::MAX),
    ];
    let r = aggregate_revenue_checked(events, Granularity::Daily).unwrap();
    assert_eq!(r.row_totals, vec![("Nice Saddle".to_string(), i64::MAX - 1)]);
}

#[test]
fn revenue_sums_past_i64_are_refused() {
    // A cell's running sum.
    let events = vec![
        rev("Nice Saddle", "2026-04-13 09:00:00", i64::MAX),
        rev("Nice Saddle", "2026-04-13 10:00:00", 1),
        rev("Nice Saddle", "2026-04-13 11:00:00", -5),
    ];
    assert!(aggregate_revenue_checked(events, Granularity::Daily).is_none());
    // A row's running sum over two cells.
    let events = vec![
        rev("Nice Saddle", "2026-04-13 09:00:00", i64::MAX),
        rev("Nice Saddle", "2026-04-14 09:00:00", 1),
    ];
    assert!(aggregate_revenue_checked(events, Granularity::Daily).is_none());
    // The grand total over two rows.
    let events = vec![
        rev("A", "2026-04-13 09:00:00", i64::MAX),
        rev("B", "2026-04-14 09:00:00", 1),
    ];
    assert!(aggregate_revenue_checked(events, Granularity::Daily).is_none());
}
