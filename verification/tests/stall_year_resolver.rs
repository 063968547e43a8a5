use glogger_core::calendar::CivilDateTime;
use glogger_core::stall_year_resolver::{
    backfill_year, base_year_for_live_at, parse_game_timestamp, resolve_timestamps_oldest_first,
    walk_fits,
};


#[test]
fn parses_game_timestamp() {
    assert_eq!(parse_game_timestamp("Mon Apr 13 14:29"), Some((4, 13, 14, 29)));
    assert_eq!(parse_game_timestamp("Sat Dec 31 23:59"), Some((12, 31, 23, 59)));
    assert_eq!(parse_game_timestamp("garbage"), None);
}

#[test]
fn resolves_single_year_book() {
    let input = ["Mon Apr 13 10:00", "Mon Apr 13 14:00", "Tue Apr 14 09:00"];
    let result = resolve_timestamps_oldest_first(&input, 2026);
    assert_eq!(result[0].as_deref(), Some("2026-04-13 10:00:00"));
    assert_eq!(result[1].as_deref(), Some("2026-04-13 14:00:00"));
    assert_eq!(result[2].as_deref(), Some("2026-04-14 09:00:00"));
}

#[test]
fn resolves_year_boundary_crossing() {
    let input = ["Wed Dec 28 10:00", "Fri Dec 30 12:00", "Sun Jan 1 00:01", "Thu Jan 5 15:00"];
    let result = resolve_timestamps_oldest_first(&input, 2025);
    assert_eq!(result[0].as_deref(), Some("2025-12-28 10:00:00"));
    assert_eq!(result[1].as_deref(), Some("2025-12-30 12:00:00"));
    assert_eq!(result[2].as_deref(), Some("2026-01-01 00:01:00"));
    assert_eq!(result[3].as_deref(), Some("2026-01-05 15:00:00"));
}

#[test]
fn base_year_for_live_in_past() {
    let now = CivilDateTime { year: 2026, month: 4, day: 14, hour: 12, minute: 0, second: 0 };
    assert_eq!(base_year_for_live_at("Mon Apr 13 10:00", now), 2026);
}

#[test]
fn base_year_for_live_wraps_to_previous_year() {
    // now = Jan 3 2026, oldest = Dec 28 → must be 2025
    let now = CivilDateTime { year: 2026, month: 1, day: 3, hour: 12, minute: 0, second: 0 };
    assert_eq!(base_year_for_live_at("Wed Dec 28 10:00", now), 2025);
}

#[test]
fn backfill_same_year() {
    // event Apr 13, row inserted Apr 14 → same year
    assert_eq!(
        backfill_year("Mon Apr 13 14:29", 2026, 4, 14).as_deref(),
        Some("2026-04-13 14:29:00"),
    );
}

#[test]
fn backfill_previous_year() {
    // event Dec 30, row inserted Jan 5 → previous year
    assert_eq!(
        backfill_year("Tue Dec 30 10:00", 2026, 1, 5).as_deref(),
        Some("2025-12-30 10:00:00"),
    );
}


#[test]
fn year_counts_backward_month_steps_past_unparsable_entries() {
    let input = ["Sat Dec 31 10:00", "garbage", "Sun Jan 1 09:00", "Wed Mar 1 08:00", "Wed Feb 1 07:00"];
    let result = resolve_timestamps_oldest_first(&input, 2022);
    assert_eq!(result[0].as_deref(), Some("2022-12-31 10:00:00"));
    assert_eq!(result[1], None);
    assert_eq!(result[2].as_deref(), Some("2023-01-01 09:00:00"));
    assert_eq!(result[3].as_deref(), Some("2023-03-01 08:00:00"));
    assert_eq!(result[4].as_deref(), Some("2024-02-01 07:00:00"));
}

#[test]
fn walk_fits_until_the_year_passes_i32() {
    let input = ["Sat Dec 31 10:00", "Sun Jan 1 09:00"];
    assert!(walk_fits(&input, 2025));
    assert!(walk_fits(&input, i32::MAX - 1));
    assert!(!walk_fits(&input, i32::MAX));
    assert!(walk_fits(&["Sun Jan 1 09:00", "Sat Dec 31 10:00"], i32::MAX));
}
