use glogger_core::report_stats::{ParsedStat, clean_stat_value, parse_behavior_report, parse_player_age};


#[test]
fn test_parse_player_age() {
    let content = r#"Zenith was created on <b>Sat Jan 31 09:40:49 EST 2026</b>.
You have spent <b>40 days 13 hours</b> logged into the game.
You have died <b>829</b> times.
You have performed <b>196,208</b> attacks.
You have killed <b>61,453</b> monsters.
You have dealt <b>134,065,964</b> damage.
You have taken <b>5,933,874</b> damage.
You have used <b>71 days</b> of VIP from a Steam subscription.
"#;
    let stats = parse_player_age(content);
    assert_eq!(stats.len(), 8);

    let by_name: std::collections::HashMap<&str, &str> = stats
        .iter()
        .map(|s| (s.name.as_str(), s.value.as_str()))
        .collect();
    assert_eq!(by_name["created_on"], "Sat Jan 31 09:40:49 EST 2026");
    assert_eq!(by_name["time_played"], "40 days 13 hours");
    assert_eq!(by_name["deaths"], "829");
    assert_eq!(by_name["attacks_made"], "196208");
    assert_eq!(by_name["kills"], "61453");
    assert_eq!(by_name["damage_dealt"], "134065964");
    assert_eq!(by_name["damage_taken"], "5933874");
    assert_eq!(by_name["vip_days"], "71 days");
}

#[test]
fn test_parse_behavior_report_challenges() {
    let content = r#"Zenith was created on Sat Jan 31 09:40:49 EST 2026

<b><color=#77ff00>Challenge Restrictions (for self-imposed hardcore challenges)</color></b>
	Bought Stock Items?  <i>YES (1,315)</i>
	Died (In An Avoidable Way)?  <i>YES (822)</i>

<b><color=#77ff00>Current Behavior Badges</color></b>
	Slaughterer of Countless Foes  <i></i>
	Slaughterer of Goblins  <i></i>

<b><color=#77ff00>Killing Stats</color></b>
	Killed Foes (Any)  <i>61,453</i>
	Killed Animals  <i>9,854</i>
	Attacks Made  <i>196,208</i>

<b><color=#77ff00>Misc Stats</color></b>
	Time Spent Online  <i>40 days 13 hours</i>
	Logged Into Game  <i>4,769</i>
"#;
    let stats = parse_behavior_report(content);

    let challenges: Vec<&ParsedStat> =
        stats.iter().filter(|s| s.category == "challenges").collect();
    assert!(challenges.len() >= 2);
    assert!(challenges
        .iter()
        .any(|s| s.name == "bought_stock_items" && s.value == "1315"));
    assert!(challenges
        .iter()
        .any(|s| s.name == "died_in_an_avoidable_way" && s.value == "822"));

    let badges: Vec<&ParsedStat> = stats.iter().filter(|s| s.category == "badges").collect();
    assert_eq!(badges.len(), 2);

    let kills: Vec<&ParsedStat> = stats
        .iter()
        .filter(|s| s.category == "killing_stats")
        .collect();
    assert!(kills.iter().any(|s| s.name == "killed_foes_any" && s.value == "61453"));
    assert!(kills.iter().any(|s| s.name == "attacks_made" && s.value == "196208"));

    let misc: Vec<&ParsedStat> =
        stats.iter().filter(|s| s.category == "misc_stats").collect();
    assert!(misc
        .iter()
        .any(|s| s.name == "time_spent_online" && s.value == "40 days 13 hours"));
    assert!(misc
        .iter()
        .any(|s| s.name == "logged_into_game" && s.value == "4769"));

    // Creation date from first line
    let age: Vec<&ParsedStat> = stats.iter().filter(|s| s.category == "age").collect();
    assert!(age
        .iter()
        .any(|s| s.name == "created_on" && s.value == "Sat Jan 31 09:40:49 EST 2026"));
}

#[test]
fn test_parse_player_age_literal_newlines() {
    // This is how content actually arrives from ProcessBook — literal \n escapes, not real newlines
    let content = r#"Zenith was created on <b>Sat Jan 31 09:40:49 EST 2026</b>.\nYou have spent <b>40 days 13 hours</b> logged into the game.\nYou have died <b>829</b> times.\nYou have performed <b>196,208</b> attacks.\nYou have killed <b>61,453</b> monsters.\nYou have dealt <b>134,065,964</b> damage.\nYou have taken <b>5,933,874</b> damage.\nYou have used <b>71 days</b> of VIP from a Steam subscription."#;
    let stats = parse_player_age(content);
    assert_eq!(stats.len(), 8, "Expected 8 stats, got: {:?}", stats.iter().map(|s| &s.name).collect::<Vec<_>>());

    let by_name: std::collections::HashMap<&str, &str> = stats
        .iter()
        .map(|s| (s.name.as_str(), s.value.as_str()))
        .collect();
    assert_eq!(by_name["created_on"], "Sat Jan 31 09:40:49 EST 2026");
    assert_eq!(by_name["time_played"], "40 days 13 hours");
    assert_eq!(by_name["deaths"], "829");
    assert_eq!(by_name["attacks_made"], "196208");
    assert_eq!(by_name["kills"], "61453");
    assert_eq!(by_name["damage_dealt"], "134065964");
    assert_eq!(by_name["damage_taken"], "5933874");
    assert_eq!(by_name["vip_days"], "71 days");
}

#[test]
fn test_clean_stat_value() {
    assert_eq!(clean_stat_value("YES (1,315)"), "1315");
    assert_eq!(clean_stat_value("YES"), "yes");
    assert_eq!(clean_stat_value("61,453"), "61453");
    assert_eq!(clean_stat_value("40 days 13 hours"), "40 days 13 hours");
    assert_eq!(clean_stat_value(""), "");
}

