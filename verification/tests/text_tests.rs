use overmax::csv::parse_csv;
use overmax::model::{Difficulty, Mode, SceneType};
use overmax::sheet_meta::{pattern_meta_value, AssistMeta, GoldMeta, PatternMetaEntry, PatternSheetMeta, PatternSheetMetaItem};

#[test]
fn csv_parser_handles_quoted_commas() {
    let rows = parse_csv("곡명,난이도,비고\n\"A, B\",SC,\"변속, 급감속\"\n");

    assert_eq!(rows[1][0], "A, B");
    assert_eq!(rows[1][2], "변속, 급감속");
}

#[test]
fn csv_parser_drops_blank_rows_and_unescapes_quotes() {
    let rows = parse_csv("a,\"say \"\"hi\"\"\"\r\n,,\n\nb,\"x\ny\"");
    assert_eq!(rows, vec![vec!["a".to_string(), "say \"hi\"".to_string()], vec!["b".to_string(), "x\ny".to_string()]]);
    assert!(parse_csv("").is_empty());
}

#[test]
fn lookup_uses_tuple_key() {
    let mut meta = PatternSheetMeta::new();
    meta.insert(
        "123".to_string(),
        Mode::B5,
        Difficulty::SC,
        PatternSheetMetaItem {
            gold: GoldMeta::Random,
            note: "개인차".into(),
            assist_key: AssistMeta::Used,
            keypart: false,
        },
    );

    assert_eq!(
        meta.get("123", Mode::B5, Difficulty::SC),
        PatternSheetMetaItem {
            gold: GoldMeta::Random,
            note: "개인차".into(),
            assist_key: AssistMeta::Used,
            keypart: false,
        }
    );
}

#[test]
fn sheet_meta_insert_replaces_and_missing_is_empty() {
    let mut meta = PatternSheetMeta::new();
    let item = |note: &str| PatternSheetMetaItem { gold: GoldMeta::HalfRandom, note: note.into(), assist_key: AssistMeta::Caution, keypart: true };
    meta.insert("7".to_string(), Mode::B8, Difficulty::MX, item("first"));
    meta.insert("7".to_string(), Mode::B8, Difficulty::MX, item("second"));
    assert_eq!(meta.get("7", Mode::B8, Difficulty::MX), item("second"));
    assert_eq!(meta.get("7", Mode::B8, Difficulty::SC), PatternSheetMetaItem::empty());
    assert_eq!(meta.get("8", Mode::B8, Difficulty::MX).note, "");
}

#[test]
fn sheet_row_becomes_annotation() {
    let headers: Vec<String> = ["곡명", "난이도", "황배 여부", "비고", "보조 키 여부", "키파트 위주"].iter().map(|s| s.to_string()).collect();
    let row: Vec<String> = ["Love ☆ Panic", "SC", "O [M]", "  개인차 ", "⚠ 주의", "O"].iter().map(|s| s.to_string()).collect();
    let m = pattern_meta_value(Mode::B8, &headers, &row);
    assert_eq!(m, PatternSheetMetaItem { gold: GoldMeta::MaxRandom, note: "개인차".into(), assist_key: AssistMeta::Caution, keypart: true });
    let m5 = pattern_meta_value(Mode::B5, &headers, &row);
    assert!(!m5.keypart);
    let row2: Vec<String> = ["X", "NM", "", "", "❌", ""].iter().map(|s| s.to_string()).collect();
    let m2 = pattern_meta_value(Mode::B4, &headers, &row2);
    assert_eq!(m2, PatternSheetMetaItem { gold: GoldMeta::Unmarked, note: String::new(), assist_key: AssistMeta::Used, keypart: false });
    assert!(!m2.has_content() || m2.assist_key == AssistMeta::Used);
    assert_eq!(GoldMeta::HalfRandom.as_str(), "핲랜");
    assert_eq!(AssistMeta::NotUsed.as_str(), "미사용");
    assert!(GoldMeta::Unmarked.is_none());
}

#[test]
fn labels_round_trip() {
    for m in Mode::all() {
        assert_eq!(Mode::from_str(m.as_str()), Some(m));
        assert_eq!(Mode::from_button_count(m.button_count() as i32), Some(m));
    }
    for d in Difficulty::all() {
        assert_eq!(Difficulty::from_str(d.as_str()), Some(d));
    }
    assert_eq!(Mode::from_str("4b"), None);
    assert_eq!(Difficulty::from_str("NORMAL"), None);
    assert!(SceneType::ResultOpen2.is_result());
    assert!(!SceneType::Online.is_result());
}

#[test]
fn titles_normalise_to_lower_case_without_spaces() {
    assert_eq!(overmax::sheet_meta::norm("  Love ☆ Panic  "), "love☆panic");
    assert_eq!(overmax::sheet_meta::norm("ÀB C"), "àbc");
    assert_eq!(overmax::sheet_meta::norm(" \t "), "");
}

#[test]
fn pattern_meta_cache_entries_load_back() {

    let item = |note: &str| PatternSheetMetaItem { gold: GoldMeta::MaxRandom, note: note.into(), assist_key: AssistMeta::NotUsed, keypart: false };
    let entries = vec![
        PatternMetaEntry { song_id: "1".into(), mode: Mode::B4, diff: Difficulty::NM, meta: item("a") },
        PatternMetaEntry { song_id: "2".into(), mode: Mode::B4, diff: Difficulty::NM, meta: item("b") },
        PatternMetaEntry { song_id: "1".into(), mode: Mode::B4, diff: Difficulty::NM, meta: item("c") },
    ];
    let meta = PatternSheetMeta::from_entries(entries);
    assert_eq!(meta.get("1", Mode::B4, Difficulty::NM).note, "c");
    assert_eq!(meta.get("2", Mode::B4, Difficulty::NM).note, "b");
    let saved = meta.to_entries();
    assert_eq!(saved.len(), 2);
    let reloaded = PatternSheetMeta::from_entries(saved);
    assert_eq!(reloaded.get("1", Mode::B4, Difficulty::NM), item("c"));
    assert_eq!(reloaded.get("2", Mode::B4, Difficulty::NM), item("b"));
}
