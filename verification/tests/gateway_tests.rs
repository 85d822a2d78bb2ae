use overmax::gateway::{
    check_manifest, clean_provider_url, get_cached_manifest, local_version_text, manifest_cache_fresh, manifest_url,
    parse_account_text,
    recommend_endpoint, recommend_request_url, records_url, select_release_asset, sheet_csv_url, sheet_gid,
    single_song_records_url, strip_bom, upload_outcome, upload_url, ProviderManifest, ReleaseAsset, ReleaseInfo,
    RECOMMEND_PROTOCOL_ID,
};
use overmax::model::{Difficulty, Mode};
use overmax::recommend::VaryDim;

#[test]
fn default_manifest_speaks_the_protocol() {
    let m = ProviderManifest::default();
    assert_eq!(m.protocol, "overmax-recommend/1");
    assert_eq!(m.protocol, RECOMMEND_PROTOCOL_ID);
    assert_eq!(m.name, None);
    assert_eq!(m.vary, vec![VaryDim::SongId, VaryDim::Mode, VaryDim::Diff]);
    assert_eq!(m.ttl_sec, 3600);
    assert_eq!(m.endpoint, "/recommend");
    assert!(check_manifest(m).is_ok());
}

#[test]
fn cached_manifest_of_a_fresh_gateway_is_default() {
    let m = get_cached_manifest("https://provider.example/");
    assert_eq!(m.protocol, "overmax-recommend/1");
    assert_eq!(m.endpoint, "/recommend");
    assert_eq!(m.ttl_sec, 3600);
}

#[test]
fn manifest_with_other_protocol_is_refused() {
    let mut m = ProviderManifest::default();
    m.protocol = "other/2".to_string();
    assert_eq!(
        check_manifest(m).err().unwrap(),
        "지원하지 않는 프로토콜 (기대: overmax-recommend/1, 실제: other/2)"
    );
}

#[test]
fn provider_urls_lose_trailing_slashes() {
    assert_eq!(clean_provider_url("http://a.example///"), "http://a.example");
    assert_eq!(clean_provider_url("http://a.example"), "http://a.example");
    assert_eq!(clean_provider_url("///"), "");
    assert_eq!(manifest_url("http://a.example/"), "http://a.example/manifest");
    assert_eq!(manifest_url("http://a.example/"), manifest_url("http://a.example"));
}

#[test]
fn endpoint_is_path_absolute_or_relative() {
    assert_eq!(recommend_endpoint("http://p.example/", "/recommend"), "http://p.example/recommend");
    assert_eq!(recommend_endpoint("http://p.example/", "https://other.example/r"), "https://other.example/r");
    assert_eq!(recommend_endpoint("http://p.example//", "api/r"), "http://p.example/api/r");
}

#[test]
fn request_url_lists_chart_and_user() {
    assert_eq!(
        recommend_request_url("http://p.example/recommend", 101, Mode::B4, Difficulty::SC, Some("v77")),
        "http://p.example/recommend?song_id=101&mode=4B&diff=SC&v_id=v77"
    );
    assert_eq!(
        recommend_request_url("e", -2, Mode::B8, Difficulty::NM, None),
        "e?song_id=-2&mode=8B&diff=NM&v_id="
    );
}

#[test]
fn account_file_holds_number_and_token() {
    let a = parse_account_text("  123456 tok-en_XYZ\n").unwrap();
    assert_eq!(a.user_no, 123456);
    assert_eq!(a.token, "tok-en_XYZ");
    let b = parse_account_text("-5\ttoken extra words").unwrap();
    assert_eq!(b.user_no, -5);
    assert_eq!(b.token, "token");
    assert!(parse_account_text("abc token").is_none());
    assert!(parse_account_text("123").is_none());
    assert!(parse_account_text("   ").is_none());
    assert!(parse_account_text("99999999999999999999 t").is_none());
}

#[test]
fn upload_urls_and_outcomes() {
    assert_eq!(upload_url(42), "https://v-archive.net/client/open/42/score");
    let ok = upload_outcome(200, Some(true), Some("ignored".to_string()));
    assert!(ok.success && ok.updated && ok.message.is_empty());
    let ok_no_flag = upload_outcome(200, None, None);
    assert!(ok_no_flag.success && !ok_no_flag.updated);
    let refused = upload_outcome(401, Some(true), Some("token invalid".to_string()));
    assert!(!refused.success && !refused.updated);
    assert_eq!(refused.message, "token invalid");
    assert_eq!(upload_outcome(500, None, None).message, "request failed");
}

#[test]
fn record_query_urls() {
    assert_eq!(records_url("u1", 4, None), "https://v-archive.net/api/v2/archive/u1/button/4");
    assert_eq!(
        records_url("u1", 8, Some("2024-01-01")),
        "https://v-archive.net/api/v2/archive/u1/button/8?since=2024-01-01"
    );
    assert_eq!(
        single_song_records_url("u1", 5, 321),
        "https://v-archive.net/api/v2/archive/u1/button/5?title=321"
    );
}

#[test]
fn leading_byte_order_marks_are_dropped() {
    assert_eq!(strip_bom("\u{feff}\u{feff}a\u{feff}b"), "a\u{feff}b");
    assert_eq!(strip_bom("plain"), "plain");
    assert_eq!(strip_bom(""), "");
}

fn asset(name: Option<&str>, url: Option<&str>) -> ReleaseAsset {
    ReleaseAsset { name: name.map(|s| s.to_string()), browser_download_url: url.map(|s| s.to_string()) }
}

#[test]
fn release_asset_lookup() {
    let info = ReleaseInfo {
        tag_name: Some("v1.2.0".to_string()),
        assets: Some(vec![
            asset(Some("other.db"), Some("u0")),
            asset(Some("image_index.db"), None),
            asset(Some("image_index.db"), Some("u2")),
            asset(Some("image_index.db"), Some("u3")),
        ]),
    };
    assert_eq!(select_release_asset(&info, "image_index.db"), Ok(("v1.2.0".to_string(), "u2".to_string())));
    assert_eq!(select_release_asset(&info, "missing.db"), Err("asset 없음: missing.db".to_string()));
    let no_tag = ReleaseInfo { tag_name: None, assets: None };
    assert_eq!(select_release_asset(&no_tag, "x"), Err("tag_name 없음".to_string()));
    let no_assets = ReleaseInfo { tag_name: Some("t".to_string()), assets: None };
    assert_eq!(select_release_asset(&no_assets, "x"), Err("assets 없음".to_string()));
}

#[test]
fn sheet_urls_per_mode() {
    assert_eq!(sheet_gid(Mode::B4), "979055934");
    assert_eq!(sheet_gid(Mode::B8), "1833696991");
    assert_eq!(
        sheet_csv_url(sheet_gid(Mode::B5)),
        "https://docs.google.com/spreadsheets/d/1ks1dwJyNjkAXYtQ_6UZIeNOCGOmhf2jMbakpTcJm9rw/gviz/tq?tqx=out:csv&gid=112529029"
    );
}

#[test]
fn version_file_text() {
    assert_eq!(local_version_text("  v3.1\n"), Some("v3.1".to_string()));
    assert_eq!(local_version_text(" \n"), None);
}

#[test]
fn manifests_are_reused_for_an_hour() {
    assert!(manifest_cache_fresh(0));
    assert!(manifest_cache_fresh(3599));
    assert!(!manifest_cache_fresh(3600));
    assert!(!manifest_cache_fresh(u64::MAX));
}
