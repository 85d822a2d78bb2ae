use std::collections::HashSet;
use overmax::model::{Difficulty, Mode};
use overmax::recommend::{
    is_base_bundle_dlc, pattern_level_index, ProviderCacheReader, ProviderEntryHead, RecommendReasonKind, RecommendStrategy,
    SourceStatus, VaryDim,
};

fn reader(vary: Vec<VaryDim>) -> ProviderCacheReader {
    ProviderCacheReader::new("test_provider".to_string(), "Test Provider".to_string(), "/tmp/cache".to_string(), vary, 3600, 0)
}

fn head(song_id: i32, mode: &str, diff: &str) -> ProviderEntryHead {
    ProviderEntryHead { song_id, mode: mode.to_string(), diff: diff.to_string() }
}

#[test]
fn provider_cache_reader_fallback_when_answer_missing() {
    let r = reader(vec![VaryDim::Mode]);
    let plan = r.plan_bundle(None, false);
    assert_eq!(plan.status, SourceStatus::Error);
    assert!(plan.kept.is_empty());
}

#[test]
fn provider_cache_reader_keeps_valid_entries() {
    let r = reader(vec![VaryDim::Mode]);
    assert_eq!(r.cache_key(1, Mode::B4, Difficulty::SC, None), "B4");
    let entries = vec![head(101, "4B", "SC"), head(102, "4B", "HD")];
    let plan = r.plan_bundle(Some(("overmax-recommend/1".to_string(), entries)), false);
    assert_eq!(plan.status, SourceStatus::Current);
    assert_eq!(plan.kept, vec![(0, 101, Mode::B4, Difficulty::SC), (1, 102, Mode::B4, Difficulty::HD)]);
}

#[test]
fn provider_answers_refused_or_filtered() {
    let r = reader(vec![]);
    let wrong = r.plan_bundle(Some(("other/1".to_string(), vec![head(1, "4B", "NM")])), false);
    assert_eq!(wrong.status, SourceStatus::Error);
    let empty = r.plan_bundle(Some(("overmax-recommend/1".to_string(), vec![])), true);
    assert_eq!(empty.status, SourceStatus::Error);
    let mixed = r.plan_bundle(
        Some(("overmax-recommend/1".to_string(), vec![head(1, "9B", "NM"), head(2, "5B", "XX"), head(3, "8B", "MX")])),
        true,
    );
    assert_eq!(mixed.status, SourceStatus::Stale);
    assert_eq!(mixed.kept, vec![(2, 3, Mode::B8, Difficulty::MX)]);
    let none_known = r.plan_bundle(Some(("overmax-recommend/1".to_string(), vec![head(1, "b4", "nm")])), false);
    assert_eq!(none_known.status, SourceStatus::Current);
    assert!(none_known.kept.is_empty());
}

#[test]
fn cache_staleness_against_time_to_live() {
    let r = reader(vec![VaryDim::Mode]);
    assert!(!r.cache_is_stale(Some((3599, 999_999_999))));
    assert!(!r.cache_is_stale(Some((3600, 0))));
    assert!(r.cache_is_stale(Some((3600, 1))));
    assert!(r.cache_is_stale(Some((3601, 0))));
    assert!(r.cache_is_stale(None));
    let half = ProviderCacheReader::new("p".to_string(), "P".to_string(), "/tmp/cache".to_string(), vec![], 0, 500_000_000);
    assert!(!half.cache_is_stale(Some((0, 500_000_000))));
    assert!(half.cache_is_stale(Some((0, 500_000_001))));
    assert!(half.cache_is_stale(Some((1, 0))));
}

#[test]
fn cache_keys_join_varying_parts() {
    let r = reader(vec![VaryDim::SongId, VaryDim::Mode, VaryDim::Diff, VaryDim::VId]);
    assert_eq!(r.cache_key(-7, Mode::B6, Difficulty::MX, Some("v1")), "-7_B6_MX_v1");
    assert_eq!(r.cache_key(3, Mode::B5, Difficulty::NM, None), "3_B5_NM_");
    assert_eq!(reader(vec![]).cache_key(3, Mode::B5, Difficulty::NM, None), "global");
    assert_eq!(r.source_id(), "test_provider");
    assert_eq!(r.source_label(), "Test Provider");
}

#[test]
fn badges_and_strategies() {
    assert_eq!(RecommendReasonKind::Top50Attack.badge_label(), "BEST");
    assert_eq!(RecommendReasonKind::Top50Defend.badge_label(), "DEF");
    assert_eq!(RecommendReasonKind::Climbing.badge_label(), "PUSH");
    assert_eq!(RecommendReasonKind::Recovery.badge_label(), "REST");
    assert_eq!(RecommendReasonKind::Retry.badge_label(), "RETRY");
    assert_eq!(RecommendReasonKind::Unplayed.badge_label(), "CLR");
    assert!(RecommendStrategy::from_smart_flag(true).is_smart());
    assert!(!RecommendStrategy::from_smart_flag(false).is_smart());
}

#[test]
fn base_bundle_codes_ignore_case_and_spaces() {
    assert!(is_base_bundle_dlc("R"));
    assert!(is_base_bundle_dlc(" Respect / V"));
    assert!(is_base_bundle_dlc("Guilty Gear"));
    assert!(!is_base_bundle_dlc("CE"));
}

#[test]
fn level_indices() {
    assert_eq!(pattern_level_index("SC", Some(1)), Some(15));
    assert_eq!(pattern_level_index("MX", Some(15)), Some(14));
    assert_eq!(pattern_level_index("NM", Some(0)), None);
    assert_eq!(pattern_level_index("SC", Some(16)), None);
    assert_eq!(pattern_level_index("HD", None), None);
}

#[test]
fn owned_packs_are_base_packs_and_packs_of_recorded_songs() {

    let song = |title: &str, dlc: &str| overmax::recommend::SongPack { title: title.to_string(), dlc_code: dlc.to_string() };
    let songs = vec![song("12", "CE"), song("13", " Black Square "), song("x", "TR"), song("14", "   "), song("15", "VE")];
    let recorded: HashSet<i32> = [12, 13, 14].into_iter().collect();
    let mut owned = overmax::recommend::owned_dlc_set(&songs, true, &recorded);
    owned.sort();
    assert_eq!(owned, vec!["blacksquare", "ce", "gg", "p1", "p2", "r", "rv"]);
    let mut base = overmax::recommend::owned_dlc_set(&songs, false, &recorded);
    base.sort();
    assert_eq!(base, vec!["gg", "p1", "p2", "r", "rv"]);
}
