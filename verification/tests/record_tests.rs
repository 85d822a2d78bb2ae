use overmax::model::{Difficulty, Mode};
use overmax::record_db::{
    add_recorded_song_ids, is_anonymous_steam_id, mask_id, pick_history_rows, play_event_window_start, rank_in_top_rows, retry_delay_ms, table_lists_column,
    varchive_key, HistoryRow, RecordDB, UNKNOWN_STEAM_ID,
};
use std::collections::HashSet;

#[test]
fn steam_id_is_trimmed_and_masked() {
    let db = RecordDB::new("cache/record.db".to_string(), Some("  76561198012345678 \n"));
    assert_eq!(db.get_steam_id(), "76561198012345678");
    assert_eq!(db.masked_steam_id(), "7656...5678");
    assert_eq!(db.db_path(), "cache/record.db");
    assert!(!db.is_ready);
}

#[test]
fn absent_or_blank_steam_id_is_unknown() {
    let db = RecordDB::new("r.db".to_string(), None);
    assert_eq!(db.get_steam_id(), UNKNOWN_STEAM_ID);
    assert_eq!(db.masked_steam_id(), "__unknown__");
    let blank = RecordDB::new("r.db".to_string(), Some(" \t "));
    assert_eq!(blank.get_steam_id(), "__unknown__");
}

#[test]
fn short_ids_are_hidden_and_long_ids_cut_on_bytes() {
    assert_eq!(mask_id("12345678"), "***");
    assert_eq!(mask_id(""), "***");
    assert_eq!(mask_id("123456789"), "1234...6789");
    assert_eq!(mask_id("abcd가나다efgh"), "abcd...efgh");
}

#[test]
fn set_steam_id_reports_change_and_masks_both() {
    let mut db = RecordDB::new("r.db".to_string(), None);
    let (changed, old, new) = db.set_steam_id(Some("76561198000000001"));
    assert!(changed);
    assert_eq!(old, "__unknown__");
    assert_eq!(new, "7656...0001");
    assert_eq!(db.get_steam_id(), "76561198000000001");

    let current = db.get_steam_id();
    let (again, old2, new2) = db.set_steam_id(Some(&current));
    assert!(!again);
    assert_eq!(old2, new2);

    let (cleared, _, masked) = db.set_steam_id(Some("   "));
    assert!(cleared);
    assert_eq!(masked, "__unknown__");
}

#[test]
fn anonymous_ids_are_empty_or_unknown() {
    assert!(is_anonymous_steam_id(""));
    assert!(is_anonymous_steam_id("__unknown__"));
    assert!(!is_anonymous_steam_id("7656"));
}

#[test]
fn top_rank_is_position_of_first_matching_row() {
    let rows: Vec<Result<(String, String), String>> = vec![
        Ok(("10".to_string(), "HD".to_string())),
        Ok(("11".to_string(), "SC".to_string())),
        Ok(("11".to_string(), "MX".to_string())),
    ];
    assert_eq!(rank_in_top_rows(&rows, "11", Difficulty::MX), Ok(Some(3)));
    assert_eq!(rank_in_top_rows(&rows, "10", Difficulty::HD), Ok(Some(1)));
    assert_eq!(rank_in_top_rows(&rows, "12", Difficulty::NM), Ok(None));
    assert_eq!(rank_in_top_rows(&[], "12", Difficulty::NM), Ok(None));
}

#[test]
fn top_rank_stops_at_first_read_error() {
    let rows: Vec<Result<(String, String), String>> = vec![
        Ok(("10".to_string(), "HD".to_string())),
        Err("Invalid column type".to_string()),
        Ok(("11".to_string(), "SC".to_string())),
    ];
    assert_eq!(rank_in_top_rows(&rows, "10", Difficulty::HD), Ok(Some(1)));
    assert_eq!(rank_in_top_rows(&rows, "11", Difficulty::SC), Err("Invalid column type".to_string()));
}

#[test]
fn recorded_song_ids_skip_unparsable_text() {
    let mut ids: HashSet<i32> = HashSet::new();
    ids.insert(5);
    let texts: Vec<String> = ["12", "x", "-3", "+7", "2147483648", "", " 4", "12"].iter().map(|s| s.to_string()).collect();
    add_recorded_song_ids(&mut ids, &texts);
    let expected: HashSet<i32> = [5, 12, -3, 7].into_iter().collect();
    assert_eq!(ids, expected);
}

#[test]
fn song_ids_written_as_text_read_back() {
    let written = [0, 1, -1, 42, i32::MAX, i32::MIN, 1000];
    let texts: Vec<String> = written.iter().map(|v| overmax::text::i64_to_decimal(*v as i64)).collect();
    let mut ids = HashSet::new();
    add_recorded_song_ids(&mut ids, &texts);
    let expected: HashSet<i32> = written.into_iter().collect();
    assert_eq!(ids, expected);
}

#[test]
fn column_lookup_matches_whole_names() {
    let names: Vec<String> = ["steam_id", "song_id", "rate"].iter().map(|s| s.to_string()).collect();
    assert!(table_lists_column(&names, "rate"));
    assert!(!table_lists_column(&names, "is_max_combo"));
    assert!(!table_lists_column(&names, "song"));
}

#[test]
fn transient_failures_are_retried_twice_with_doubling_waits() {

    assert_eq!(retry_delay_ms(0, Some(5)), Some(10));
    assert_eq!(retry_delay_ms(1, Some(261)), Some(20));
    assert_eq!(retry_delay_ms(2, Some(6)), None);
    assert_eq!(retry_delay_ms(0, Some(1)), None);
    assert_eq!(retry_delay_ms(0, None), None);
}

fn row(song_id: &str, difficulty: &str) -> HistoryRow {
    Some((song_id.to_string(), difficulty.to_string()))
}

#[test]
fn history_rows_skip_unparsable_rows() {
    let rows = vec![row("12", "MX"), row("x", "MX"), None, row("7", "EASY"), row("7", "SC"), row("12", "NM")];
    assert_eq!(
        pick_history_rows(&rows, 10),
        vec![(0, 12, Difficulty::MX), (4, 7, Difficulty::SC), (5, 12, Difficulty::NM)]
    );
    assert_eq!(pick_history_rows(&rows, 2), vec![(0, 12, Difficulty::MX), (4, 7, Difficulty::SC)]);
    assert!(pick_history_rows(&rows, 0).is_empty());
}

#[test]
fn recent_records_come_from_play_history_only() {
    let mut db = RecordDB::new("r.db".to_string(), Some("76561198000000001"));
    // Two finished plays, newest first: song 100 (SC) then song 101 (SC).
    let events = vec![row("100", "SC"), row("101", "SC")];
    assert!(db.recent_record_picks("76561198000000001", &events, 5).is_empty());
    db.is_ready = true;
    // Fewer plays than the limit: the list holds exactly the plays, nothing else.
    assert_eq!(
        db.recent_record_picks("76561198000000001", &events, 5),
        vec![(0, 100, Difficulty::SC), (1, 101, Difficulty::SC)]
    );
    assert_eq!(db.recent_record_picks("76561198000000001", &events, 1), vec![(0, 100, Difficulty::SC)]);
    assert!(db.recent_record_picks("76561198000000001", &events, 0).is_empty());
    assert!(db.recent_record_picks("", &events, 5).is_empty());
    assert!(db.recent_record_picks(UNKNOWN_STEAM_ID, &events, 5).is_empty());
}

#[test]
fn varchive_keys_default_the_song_id() {
    assert_eq!(varchive_key("42", "6B", "SC"), Some((42, Mode::B6, Difficulty::SC)));
    assert_eq!(varchive_key("abc", "4B", "NM"), Some((0, Mode::B4, Difficulty::NM)));
    assert_eq!(varchive_key("42", "7B", "NM"), None);
    assert_eq!(varchive_key("42", "4B", "nm"), None);
}

#[test]
fn only_a_ready_store_reads_a_known_account() {
    let mut db = RecordDB::new("r.db".to_string(), Some("7656"));
    assert!(!db.can_read_account("7656"));
    db.is_ready = true;
    assert!(db.can_read_account("7656"));
    assert!(!db.can_read_account(""));
    assert!(!db.can_read_account("__unknown__"));
}

#[test]
fn play_event_debounce_window_starts_45_seconds_back() {
    assert_eq!(play_event_window_start(1_700_000_045), 1_700_000_000);
    assert_eq!(play_event_window_start(45), 0);
    assert_eq!(play_event_window_start(10), 0);
    assert_eq!(play_event_window_start(-100), 0);
}
