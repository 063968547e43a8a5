use glogger_core::setup::{
    is_character_report_file, latest_report_index, latest_reports_by_character, tally_characters,
    ReportHeader,
};

fn header(name: &str, server: &str, ts: Option<&str>, report: Option<&str>) -> ReportHeader {
    ReportHeader {
        character: name.to_string(),
        server_name: server.to_string(),
        timestamp: ts.map(|s| s.to_string()),
        report: report.map(|s| s.to_string()),
    }
}

#[test]
fn report_file_names() {
    assert!(is_character_report_file("Character_Zenith_Dreva.json"));
    assert!(!is_character_report_file("Character_Zenith_Dreva.txt"));
    assert!(!is_character_report_file("Inventory_Zenith.json"));
    assert!(!is_character_report_file(".json"));
}

#[test]
fn tally_counts_sheets_and_keeps_latest_timestamp() {
    let headers = vec![
        header("Zenith", "Dreva", Some("2026-04-01 10:00:00"), Some("CharacterSheet")),
        header("Zenith", "Dreva", Some("2026-04-03 10:00:00"), Some("CharacterSheet")),
        header("Zenith", "Dreva", Some("2026-04-02 10:00:00"), Some("CharacterSheet")),
        header("Zenith", "Dreva", Some("2026-05-01 10:00:00"), Some("Storage")),
    ];
    let found = tally_characters(&headers);
    assert_eq!(found.len(), 1);
    assert_eq!(found[0].character_name, "Zenith");
    assert_eq!(found[0].server_name, "Dreva");
    assert_eq!(found[0].report_count, 3);
    assert_eq!(found[0].latest_report_time.as_deref(), Some("2026-04-03 10:00:00"));
}

#[test]
fn tally_orders_latest_first_then_by_name() {
    let headers = vec![
        header("Bravo", "Dreva", Some("2026-04-01 10:00:00"), Some("CharacterSheet")),
        header("Alpha", "Dreva", Some("2026-04-01 10:00:00"), Some("CharacterSheet")),
        header("Zulu", "Dreva", None, Some("CharacterSheet")),
        header("Yankee", "Dreva", Some("2026-04-09 10:00:00"), Some("CharacterSheet")),
        header("Xray", "Dreva", Some("2026-04-09 10:00:00"), None),
    ];
    let found = tally_characters(&headers);
    let names: Vec<&str> = found.iter().map(|d| d.character_name.as_str()).collect();
    assert_eq!(names, vec!["Yankee", "Alpha", "Bravo", "Zulu"]);
    assert_eq!(found[3].latest_report_time, None);
}

#[test]
fn tally_separates_servers() {
    let headers = vec![
        header("Zenith", "Dreva", Some("2026-04-01 10:00:00"), Some("CharacterSheet")),
        header("Zenith", "Laeth", Some("2026-04-02 10:00:00"), Some("CharacterSheet")),
    ];
    let found = tally_characters(&headers);
    assert_eq!(found.len(), 2);
    assert_eq!(found[0].server_name, "Laeth");
    assert_eq!(found[1].server_name, "Dreva");
}

#[test]
fn tally_of_nothing_is_empty() {
    assert!(tally_characters(&Vec::new()).is_empty());
}

#[test]
fn latest_report_picks_newest_sheet_of_character() {
    let headers = vec![
        header("Zenith", "Dreva", Some("2026-04-01 10:00:00"), Some("CharacterSheet")),
        header("Zenith", "Dreva", Some("2026-04-03 10:00:00"), Some("CharacterSheet")),
        header("Zenith", "Laeth", Some("2026-04-09 10:00:00"), Some("CharacterSheet")),
        header("Zenith", "Dreva", Some("2026-04-05 10:00:00"), Some("Storage")),
        header("Other", "Dreva", Some("2026-04-07 10:00:00"), Some("CharacterSheet")),
        header("Zenith", "Dreva", None, Some("CharacterSheet")),
        header("Zenith", "Dreva", Some("2026-04-03 10:00:00"), Some("CharacterSheet")),
    ];
    assert_eq!(latest_report_index(&headers, "CharacterSheet", Some("Zenith"), Some("Dreva")), Some(1));
    assert_eq!(latest_report_index(&headers, "CharacterSheet", Some("Zenith"), None), Some(2));
    assert_eq!(latest_report_index(&headers, "Storage", Some("Zenith"), None), Some(3));
    assert_eq!(latest_report_index(&headers, "CharacterSheet", Some("Nobody"), None), None);
}

#[test]
fn latest_reports_one_per_character_on_server() {
    let headers = vec![
        header("Bravo", "Dreva", Some("2026-04-01 10:00:00"), Some("CharacterSheet")),
        header("Alpha", "Dreva", Some("2026-04-02 10:00:00"), Some("CharacterSheet")),
        header("Bravo", "Dreva", Some("2026-04-05 10:00:00"), Some("CharacterSheet")),
        header("Bravo", "Laeth", Some("2026-04-09 10:00:00"), Some("CharacterSheet")),
        header("Alpha", "Dreva", Some("2026-04-01 10:00:00"), Some("CharacterSheet")),
    ];
    assert_eq!(latest_reports_by_character(&headers, "CharacterSheet", "Dreva"), vec![2, 1]);
    assert_eq!(latest_reports_by_character(&headers, "CharacterSheet", "Laeth"), vec![3]);
    assert!(latest_reports_by_character(&headers, "Storage", "Dreva").is_empty());
}
