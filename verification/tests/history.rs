use tdcore::history::{format_history_entry, HistoryEntry, HistoryStore};

fn entry(secs: i64, nanos: u32, id: &str, message: Option<&str>) -> HistoryEntry {
    HistoryEntry::at_instant(
        secs,
        nanos,
        id.to_string(),
        format!("name-{id}"),
        true,
        message.map(|m| m.to_string()),
        false,
    )
    .expect("valid instant")
}

fn ids(entries: &[HistoryEntry]) -> Vec<String> {
    entries.iter().map(|e| e.profile_id().to_string()).collect()
}

#[test]
fn history_line_uses_rfc3339_and_status() {
    let ok = entry(1431648000, 0, "p1", None);
    assert_eq!(
        format_history_entry(&ok),
        "2015-05-15T00:00:00+00:00 | SUCCESS | name-p1 | p1"
    );
    let failed = HistoryEntry::at_instant(
        1431648000,
        500_000_000,
        "p2".to_string(),
        "db".to_string(),
        false,
        Some("timeout".to_string()),
        true,
    )
    .unwrap();
    assert_eq!(
        format_history_entry(&failed),
        "2015-05-15T00:00:00.500+00:00 | FAIL | db | p2 | timeout"
    );
    assert!(failed.forced());
    assert!(!failed.success());
    assert_eq!(failed.message(), Some("timeout"));
}

#[test]
fn history_line_shows_micro_and_nano_precision() {
    let micros = entry(0, 1_500, "a", None);
    assert_eq!(format_history_entry(&micros), "1970-01-01T00:00:00.000001500+00:00 | SUCCESS | name-a | a");
    let whole_micros = entry(0, 2_000, "b", None);
    assert_eq!(format_history_entry(&whole_micros), "1970-01-01T00:00:00.000002+00:00 | SUCCESS | name-b | b");
}

#[test]
fn instants_chrono_cannot_hold_are_refused() {
    assert!(HistoryEntry::at_instant(0, 2_000_000_000, "x".into(), "x".into(), true, None, false).is_none());
    assert!(HistoryEntry::at_instant(i64::MAX, 0, "x".into(), "x".into(), true, None, false).is_none());
}

#[test]
fn new_entry_is_stamped_now() {
    let e = HistoryEntry::new("id".into(), "name".into(), true, None, false);
    assert!(e.timestamp_secs() > 1_600_000_000);
    assert!(e.timestamp_nanos() < 1_000_000_000);
    assert_eq!(e.profile_id(), "id");
    assert_eq!(e.profile_name(), "name");
    assert_eq!(e.message(), None);
}

#[test]
fn loaded_entries_come_newest_first_and_stable() {
    let entries = vec![
        entry(10, 0, "old", None),
        entry(30, 0, "tie-first", None),
        entry(20, 5, "mid", None),
        entry(30, 0, "tie-second", None),
        entry(20, 7, "mid-later", None),
    ];
    let loaded = HistoryStore::load_entries(entries, None);
    assert_eq!(ids(&loaded), vec!["tie-first", "tie-second", "mid-later", "mid", "old"]);
}

#[test]
fn loaded_entries_are_cut_to_the_limit() {
    let entries = vec![entry(1, 0, "a", None), entry(3, 0, "c", None), entry(2, 0, "b", None)];
    let loaded = HistoryStore::load_entries(entries, Some(2));
    assert_eq!(ids(&loaded), vec!["c", "b"]);
    let few = HistoryStore::load_entries(vec![entry(1, 0, "a", None)], Some(5));
    assert_eq!(ids(&few), vec!["a"]);
    assert!(HistoryStore::load_entries(Vec::new(), Some(0)).is_empty());
}

#[test]
fn store_keeps_its_path() {
    let store = HistoryStore::new("/tmp/history.jsonl".to_string());
    assert_eq!(store.path(), "/tmp/history.jsonl");
}
