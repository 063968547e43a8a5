use glogger_core::replay::{
    first_timezone_offset, logins_first, merge_events, progress_interval, stamp_player_lines, LineStamp,
    ReplayResult, TimedEvent,
};
use glogger_core::settings::{
    default_chat_retention_days, default_excluded_channels, default_item_valuation_mode,
    default_market_price_mode, default_report_watch_interval, default_timestamp_display_mode,
    default_true, get_server_list,
};

#[test]
fn server_list_is_the_five_servers() {
    assert_eq!(
        get_server_list(),
        vec!["Dreva", "Arisetsu", "Laeth", "Miraverre", "Strekios"]
    );
}

#[test]
fn settings_defaults() {
    assert_eq!(
        default_excluded_channels(),
        vec!["System", "Error", "Emotes", "Action Emotes", "NPC Chatter", "Status", "Combat"]
    );
    assert_eq!(default_chat_retention_days(), None);
    assert!(default_true());
    assert_eq!(default_report_watch_interval(), 10);
    assert_eq!(default_timestamp_display_mode(), "local");
    assert_eq!(default_market_price_mode(), "universal");
    assert_eq!(default_item_valuation_mode(), "highest_market_vendor");
}

fn line(t: i64, s: &str) -> TimedEvent<u32> {
    TimedEvent::PlayerLine { utc_second: t, line: s.to_string() }
}

fn chat(t: i64, m: u32) -> TimedEvent<u32> {
    TimedEvent::ChatMessage { utc_second: t, msg: m }
}

fn login(t: i64, off: Option<i32>) -> TimedEvent<u32> {
    TimedEvent::ChatLogin {
        utc_second: t,
        server_name: "Dreva".to_string(),
        character_name: "Zenith".to_string(),
        timezone_offset_seconds: off,
    }
}

fn describe(e: &TimedEvent<u32>) -> String {
    match e {
        TimedEvent::PlayerLine { utc_second, line } => format!("{} line {}", utc_second, line),
        TimedEvent::ChatMessage { utc_second, msg } => format!("{} chat {}", utc_second, msg),
        TimedEvent::ChatLogin { utc_second, .. } => format!("{} login", utc_second),
    }
}

#[test]
fn replay_sort_orders_by_second_then_login_line_chat_stably() {
    let player = vec![line(10, "a"), line(9, "b"), line(10, "c")];
    let chats = vec![chat(10, 1), login(10, Some(3600)), chat(10, 2)];
    let events = merge_events(player, chats);
    let got: Vec<String> = events.iter().map(describe).collect();
    assert_eq!(
        got,
        vec!["9 line b", "10 login", "10 line a", "10 line c", "10 chat 1", "10 chat 2"]
    );
}

#[test]
fn replay_timezone_offset_from_first_login_that_has_one() {
    let events = vec![line(1, "x"), login(2, None), login(3, Some(-18000)), login(4, Some(3600))];
    assert_eq!(first_timezone_offset(&events), -18000);
    let none: Vec<TimedEvent<u32>> = vec![line(1, "x"), login(2, None)];
    assert_eq!(first_timezone_offset(&none), 0);
}

#[test]
fn replay_progress_interval_and_counts() {
    assert_eq!(progress_interval(0), 50);
    assert_eq!(progress_interval(5000), 50);
    assert_eq!(progress_interval(5100), 51);
    assert_eq!(progress_interval(1_000_000), 10_000);
    let r = ReplayResult::new();
    assert_eq!(r.player_lines_processed, 0);
    assert_eq!(r.chat_status_events_emitted, 0);
    assert_eq!(e_key(&line(7, "z")), (7, 1));
}

fn e_key(e: &TimedEvent<u32>) -> (i64, u8) {
    e.sort_key()
}

#[test]
fn replay_unstamped_lines_take_previous_second() {
    let lines = vec![
        (LineStamp::Missing, "orphan before any stamp".to_string()),
        (LineStamp::Second(100), "[00:01:40] first".to_string()),
        (LineStamp::Missing, "continuation".to_string()),
        (LineStamp::Missing, "".to_string()),
        (LineStamp::Invalid, "[99:99:99] bad stamp".to_string()),
        (LineStamp::Second(105), "[00:01:45] second".to_string()),
    ];
    let events: Vec<TimedEvent<u32>> = stamp_player_lines(lines);
    let got: Vec<String> = events.iter().map(describe).collect();
    assert_eq!(
        got,
        vec!["100 line [00:01:40] first", "100 line continuation", "105 line [00:01:45] second"]
    );
}

#[test]
fn replay_login_lines_sort_before_earlier_player_lines() {
    let player = vec![line(5, "early"), line(50, "late")];
    let chats = logins_first(vec![chat(40, 1), login(45, Some(3600))]);
    let got: Vec<String> = merge_events(player, chats).iter().map(describe).collect();
    assert_eq!(got, vec!["0 login", "5 line early", "40 chat 1", "50 line late"]);
}
