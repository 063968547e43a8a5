use glogger_core::shop::{
    entries_at_spans, entry_from_groups, read_entry, read_shop_log, read_shop_log_checked,
    ShopAction, ShopEntryRecord,
};

fn single(msg: &str) -> ShopEntryRecord {
    read_entry(0, "Mon Apr 13 14:29", msg)
}

fn price(e: &ShopEntryRecord) -> Option<(&str, &str)> {
    e.price_text.as_ref().map(|(a, b)| (a.as_str(), b.as_str()))
}

#[test]
fn shop_bought_reads_player_item_price_and_total() {
    let e = single("MrBonq bought Quality Reins at a cost of 4500 per 1 = 4500");
    assert_eq!(e.action, "bought");
    assert_eq!(e.player, "MrBonq");
    assert_eq!(e.item.as_deref(), Some("Quality Reins"));
    assert_eq!(e.quantity, None);
    assert_eq!(price(&e), Some(("4500", "1")));
    assert_eq!(e.price_total, Some(4500));
    assert_eq!(e.timestamp, "Mon Apr 13 14:29");
    assert_eq!(e.event_at, None);
}

#[test]
fn shop_bought_bulk_keeps_units_of_listing() {
    let e = single("MrBonq bought Barley Seeds at a cost of 3000 per 2 = 6000");
    assert_eq!(price(&e), Some(("3000", "2")));
    assert_eq!(e.price_total, Some(6000));
    assert_eq!(e.quantity, None);
}

#[test]
fn shop_bought_stack_count_is_stripped_from_item() {
    let e = single("MARCELA bought Aquamarine x5 at a cost of 750 per 1 = 3750");
    assert_eq!(e.item.as_deref(), Some("Aquamarine"));
    assert_eq!(e.quantity, Some(5));
    let e = single("MrBonq bought Quality Reinsx2 at a cost of 4500 per 1 = 9000");
    assert_eq!(e.item.as_deref(), Some("Quality Reins"));
    assert_eq!(e.quantity, Some(2));
}

#[test]
fn shop_added_and_removed_counts() {
    let e = single("Deradon added Nice Saddle to shop");
    assert_eq!((e.action.as_str(), e.player.as_str()), ("added", "Deradon"));
    assert_eq!(e.item.as_deref(), Some("Nice Saddle"));
    assert_eq!(e.quantity, Some(1));
    let e = single("Deradon added Barley Seeds x36 to shop");
    assert_eq!(e.item.as_deref(), Some("Barley Seeds"));
    assert_eq!(e.quantity, Some(36));
    let e = single("Deradon added Barley Seedsx36 to shop");
    assert_eq!(e.item.as_deref(), Some("Barley Seeds"));
    assert_eq!(e.quantity, Some(36));
    let e = single("Deradon removed Barley Seeds x12 from shop");
    assert_eq!(e.action, "removed");
    assert_eq!(e.quantity, Some(12));
    assert_eq!(e.price_text, None);
}

#[test]
fn shop_configured_and_visible_prices() {
    let e = single("Deradon configured Barley Seedsx36 to cost 3000 per 2.");
    assert_eq!(e.action, "configured");
    assert_eq!(e.item.as_deref(), Some("Barley Seeds"));
    assert_eq!(e.quantity, Some(36));
    assert_eq!(price(&e), Some(("3000", "2")));
    let e = single("Deradon made Barley Seeds x36 visible in shop at a cost of 3000 per 2");
    assert_eq!(e.action, "visible");
    assert_eq!(e.item.as_deref(), Some("Barley Seeds"));
    assert_eq!(e.quantity, Some(36));
    assert_eq!(price(&e), Some(("3000", "2")));
    assert_eq!(e.price_total, None);
}

#[test]
fn shop_collected_and_unknown() {
    let e = single("Deradon collected 30500 Councils from customer purchases");
    assert_eq!(e.action, "collected");
    assert_eq!(e.player, "Deradon");
    assert_eq!(e.price_total, Some(30500));
    assert_eq!(e.item, None);
    assert_eq!(e.quantity, Some(1));
    let e = single("Deradon paid 5000 Councils to hire a stall for 24 hours");
    assert_eq!(e.action, "unknown");
    assert_eq!(e.player, "");
    assert_eq!(e.raw_message, "Deradon paid 5000 Councils to hire a stall for 24 hours");
}

#[test]
fn shop_book_reverses_resolves_and_detects_owner() {
    let content = "\
Wed Apr 15 11:45 - MrBonq bought Quality Reins at a cost of 4500 per 1 = 4500

Tue Apr 14 10:30 - Deradon made Quality Reins visible in shop at a cost of 4500 per 1

Mon Apr 13 09:00 - Deradon added Quality Reins to shop";
    let log = read_shop_log("Today's Shop Logs", content, "2026-04-15 12:00:00", 2026);
    assert_eq!(log.title, "Today's Shop Logs");
    assert_eq!(log.entries.len(), 3);
    assert_eq!(log.entries[0].action, "added");
    assert_eq!(log.entries[0].entry_index, 0);
    assert_eq!(log.entries[0].timestamp, "Mon Apr 13 09:00");
    assert_eq!(log.entries[0].event_at.as_deref(), Some("2026-04-13 09:00:00"));
    assert_eq!(log.entries[1].action, "visible");
    assert_eq!(log.entries[2].action, "bought");
    assert_eq!(log.entries[2].entry_index, 2);
    assert_eq!(log.owner.as_deref(), Some("Deradon"));
}

#[test]
fn shop_book_escaped_newlines_and_year_rollover() {
    let content =
        "Mon Jan 05 10:30 - MrBonq bought Nice Saddle at a cost of 4000 per 1 = 4000\\n\\nWed Dec 31 09:00 - Deradon added Nice Saddle to shop";
    let log = read_shop_log("x", content, "t", 2025);
    assert_eq!(log.entries.len(), 2);
    assert_eq!(log.entries[0].action, "added");
    assert_eq!(log.entries[0].event_at.as_deref(), Some("2025-12-31 09:00:00"));
    assert_eq!(log.entries[1].action, "bought");
    assert_eq!(log.entries[1].event_at.as_deref(), Some("2026-01-05 10:30:00"));
}

#[test]
fn shop_book_without_owner_action_has_no_owner() {
    let content = "Mon Apr 13 14:29 - MrBonq bought Nice Saddle at a cost of 4000 per 1 = 4000";
    let log = read_shop_log("x", content, "t", 2026);
    assert_eq!(log.entries.len(), 1);
    assert_eq!(log.owner, None);
}

#[test]
fn shop_book_skips_empty_messages_and_keeps_same_minute_entries_apart() {
    let content = "\
Mon Apr 13 14:29 - AlestiarWolf bought Nice Saddle at a cost of 4000 per 1 = 4000

Mon Apr 13 14:29 - MrBonq bought Nice Saddle at a cost of 4000 per 1 = 4000
Mon Apr 13 14:28 - ";
    let log = read_shop_log("x", content, "t", 2026);
    assert_eq!(log.entries.len(), 2);
    assert_eq!(log.entries[0].player, "MrBonq");
    assert_eq!(log.entries[1].player, "AlestiarWolf");
    assert_ne!(log.entries[0].entry_index, log.entries[1].entry_index);
}

#[test]
fn shop_indices_stable_when_newer_entries_are_added() {
    let v1 = "\
Tue Apr 14 10:30 - MrBonq bought Nice Saddle at a cost of 4000 per 1 = 4000

Mon Apr 13 09:00 - Deradon added Nice Saddle to shop";
    let v2 = "\
Wed Apr 15 11:45 - MrBonq bought Quality Reins at a cost of 4500 per 1 = 4500

Tue Apr 14 10:30 - MrBonq bought Nice Saddle at a cost of 4000 per 1 = 4000

Mon Apr 13 09:00 - Deradon added Nice Saddle to shop";
    let a = read_shop_log("x", v1, "t1", 2026);
    let b = read_shop_log("x", v2, "t2", 2026);
    for (i, e) in a.entries.iter().enumerate() {
        assert_eq!(b.entries[i].entry_index, e.entry_index);
        assert_eq!(b.entries[i].raw_message, e.raw_message);
        assert_eq!(b.entries[i].event_at, e.event_at);
    }
    assert_eq!(b.entries[2].entry_index, 2);
    assert_eq!(b.entries[2].raw_message, "MrBonq bought Quality Reins at a cost of 4500 per 1 = 4500");
}

#[test]
fn checked_read_refuses_a_year_past_i32() {
    let content =
        "Mon Jan 05 10:30 - MrBonq bought Nice Saddle at a cost of 4000 per 1 = 4000\\n\\nWed Dec 31 09:00 - Deradon added Nice Saddle to shop";
    assert!(read_shop_log_checked("x", content, "t", i32::MAX).is_none());
    let log = read_shop_log_checked("x", content, "t", 2025).unwrap();
    assert_eq!(log.entries.len(), 2);
    assert_eq!(log.entries[1].event_at.as_deref(), Some("2026-01-05 10:30:00"));
    // A book without a year change reads at the last year.
    let one = "Mon Apr 13 14:29 - MrBonq bought Nice Saddle at a cost of 4000 per 1 = 4000";
    assert_eq!(read_shop_log_checked("x", one, "t", i32::MAX).unwrap().entries.len(), 1);
}

fn g(s: &str) -> Option<String> {
    Some(s.to_string())
}

#[test]
fn entry_from_given_groups() {
    let msg = "MrBonq bought Nice Saddle x3 at a cost of 3000 per 2 = 4500";
    let e = entry_from_groups(4, "Mon Apr 13 14:29", msg, ShopAction::Bought,
        vec![g(msg), g("MrBonq"), g("Nice Saddle"), g("3"), g("3000"), g("2"), g("4500")]);
    assert_eq!(e.entry_index, 4);
    assert_eq!(e.action, "bought");
    assert_eq!(e.player, "MrBonq");
    assert_eq!(e.item.as_deref(), Some("Nice Saddle"));
    assert_eq!(e.quantity, Some(3));
    assert_eq!(e.price_text, Some(("3000".to_string(), "2".to_string())));
    assert_eq!(e.price_total, Some(4500));
    let c = entry_from_groups(0, "t", "x", ShopAction::Collected, vec![g("x"), g("Deradon"), g("1200")]);
    assert_eq!(c.player, "Deradon");
    assert_eq!(c.item, None);
    assert_eq!(c.quantity, Some(1));
    assert_eq!(c.price_total, Some(1200));
    let u = entry_from_groups(0, "t", "x", ShopAction::Unknown, vec![]);
    assert_eq!(u.action, "unknown");
    assert_eq!(u.player, "");
}

#[test]
fn entries_from_given_spans() {
    let body: Vec<char> = "Mon Apr 13 14:29 - first\nTue Apr 14 09:00 - second ".chars().collect();
    let pairs = entries_at_spans(&body, &vec![(0, 19), (25, 44)]);
    let texts: Vec<(String, String)> = pairs
        .iter()
        .map(|(a, b)| (a.iter().collect(), b.iter().collect()))
        .collect();
    assert_eq!(
        texts,
        vec![
            ("Mon Apr 13 14:29".to_string(), "first".to_string()),
            ("Tue Apr 14 09:00".to_string(), "second".to_string()),
        ]
    );
}
