use glogger_core::inventory::{active_days, in_window, ALL_TIME_SENTINEL};

fn times(v: &[&str]) -> Vec<String> {
    v.iter().map(|s| s.to_string()).collect()
}

#[test]
fn active_days_are_distinct_and_newest_first() {
    let t = times(&[
        "2026-04-10 09:00:00",
        "2026-04-13 09:00:00",
        "2026-04-12 09:00:00",
        "2026-04-13 18:30:00",
        "short",
    ]);
    assert_eq!(active_days(&t), vec!["2026-04-13", "2026-04-12", "2026-04-10"]);
    assert!(active_days(&Vec::new()).is_empty());
}

#[test]
fn window_takes_the_most_recent_active_days() {
    let days = active_days(&times(&[
        "2026-04-10 09:00:00",
        "2026-04-12 10:00:00",
        "2026-04-13 10:00:00",
    ]));
    assert!(in_window(&days, 1, "2026-04-13 10:00:00"));
    assert!(!in_window(&days, 1, "2026-04-12 10:00:00"));
    assert!(in_window(&days, 2, "2026-04-12 10:00:00"));
    assert!(!in_window(&days, 2, "2026-04-10 10:00:00"));
    assert!(in_window(&days, 7, "2026-04-10 10:00:00"));
}

#[test]
fn window_of_all_time_holds_every_active_day() {
    let days = active_days(&times(&["2026-04-10 09:00:00", "2026-04-13 10:00:00"]));
    assert!(in_window(&days, ALL_TIME_SENTINEL, "2026-04-10 23:59:59"));
    assert!(in_window(&days, 0, "2026-04-10 23:59:59"));
    assert!(in_window(&days, -3, "2026-04-13 00:00:00"));
    assert!(!in_window(&days, ALL_TIME_SENTINEL, "2026-04-11 00:00:00"));
    assert!(!in_window(&days, ALL_TIME_SENTINEL, "2026"));
}
