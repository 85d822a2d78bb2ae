use overmax::paths::{decide_app_paths, is_cargo_target_dir, AppPaths, BundleProbes, EnvOverrides, RuntimeMode};
use std::path::{Path, PathBuf};

fn p(s: String) -> PathBuf {
    PathBuf::from(s)
}

#[test]
fn portable_paths_match_root() {
    let root = PathBuf::from("/tmp/overmax-portable-root");
    let paths = AppPaths::new_portable(root.to_string_lossy().to_string());

    assert_eq!(paths.mode(), RuntimeMode::Portable);
    assert!(paths.is_portable());
    assert_eq!(Path::new(paths.bundle_dir()), root.as_path());
    assert_eq!(Path::new(paths.data_dir()), root.as_path());
    assert_eq!(p(paths.cache_dir()), root.join("cache"));
    assert_eq!(p(paths.settings_json()), root.join("settings.json"));
    assert_eq!(p(paths.settings_user_json()), root.join("settings.user.json"));
    assert_eq!(p(paths.record_db()), root.join("cache").join("record.db"));
    assert_eq!(p(paths.songs_json()), root.join("cache").join("songs.json"));
    assert_eq!(p(paths.dlcs_json()), root.join("cache").join("dlcs.json"));
    assert_eq!(p(paths.image_index_db()), root.join("cache").join("image_index.db"));
    assert_eq!(p(paths.ipc_endpoint_json()), root.join("cache").join("ipc_endpoint.json"));
}

#[test]
fn installed_paths_separate_bundle_and_data() {
    let bundle_dir = PathBuf::from("/opt/overmax-bundle");
    let data_dir = PathBuf::from("/home/user/.local/share/overmax");

    let paths = AppPaths::new_installed(
        bundle_dir.to_string_lossy().to_string(),
        data_dir.to_string_lossy().to_string(),
    );

    assert_eq!(paths.mode(), RuntimeMode::Installed);
    assert!(!paths.is_portable());
    assert_eq!(Path::new(paths.bundle_dir()), bundle_dir.as_path());
    assert_eq!(Path::new(paths.data_dir()), data_dir.as_path());
    assert_eq!(p(paths.settings_json()), bundle_dir.join("settings.json"));
    assert_eq!(p(paths.settings_user_json()), data_dir.join("settings.user.json"));
    assert_eq!(p(paths.record_db()), data_dir.join("cache").join("record.db"));
    assert_eq!(p(paths.songs_json()), data_dir.join("cache").join("songs.json"));
}

#[test]
fn settings_paths_matches_app_paths() {
    let bundle = PathBuf::from("/opt/overmax-bundle");
    let data = PathBuf::from("/var/overmax-data");
    let paths = AppPaths::new_installed(bundle.to_string_lossy().to_string(), data.to_string_lossy().to_string());
    let sp = paths.settings_paths();

    assert_eq!(p(sp.settings_json), bundle.join("settings.json"));
    assert_eq!(p(sp.settings_user_json), data.join("settings.user.json"));
}

fn probes(marker: bool, msix: bool, existing: bool, writable: bool) -> BundleProbes {
    BundleProbes { portable_marker: marker, in_msix_package: msix, has_existing_data: existing, writable }
}

fn no_env() -> EnvOverrides {
    EnvOverrides { data_dir: None, portable: None }
}

#[test]
fn marker_file_selects_portable_mode_even_when_read_only() {
    let paths = decide_app_paths("/opt/app".to_string(), &no_env(), &probes(true, false, false, false), Some("/home/u/data".to_string()));
    assert_eq!(paths.mode(), RuntimeMode::Portable);
    assert_eq!(paths.data_dir(), "/opt/app");
}

#[test]
fn data_dir_override_wins_and_is_trimmed() {
    let env = EnvOverrides { data_dir: Some("  /srv/overmax  ".to_string()), portable: Some("1".to_string()) };
    let paths = decide_app_paths("/opt/app".to_string(), &env, &probes(true, false, true, true), None);
    assert_eq!(paths.mode(), RuntimeMode::Installed);
    assert_eq!(paths.data_dir(), "/srv/overmax");
    assert_eq!(paths.bundle_dir(), "/opt/app");

    let blank = EnvOverrides { data_dir: Some("   ".to_string()), portable: Some(" YES ".to_string()) };
    let paths = decide_app_paths("/opt/app".to_string(), &blank, &probes(false, true, false, false), None);
    assert_eq!(paths.mode(), RuntimeMode::Portable);
}

#[test]
fn msix_and_read_only_bundles_use_per_user_data() {
    let msix = decide_app_paths("/opt/app".to_string(), &no_env(), &probes(false, true, true, true), Some("/home/u/data".to_string()));
    assert_eq!(msix.mode(), RuntimeMode::Installed);
    assert_eq!(msix.data_dir(), "/home/u/data");

    let read_only = decide_app_paths("/opt/app".to_string(), &no_env(), &probes(false, false, true, false), None);
    assert_eq!(read_only.mode(), RuntimeMode::Installed);
    assert_eq!(read_only.data_dir(), "/opt/app");

    let writable = decide_app_paths("/opt/app".to_string(), &no_env(), &probes(false, false, false, true), None);
    assert_eq!(writable.mode(), RuntimeMode::Portable);
}

#[test]
fn cargo_build_directories_are_recognised() {
    assert!(is_cargo_target_dir("/ws/target/debug"));
    assert!(is_cargo_target_dir("C:\\ws\\target\\release"));
    assert!(is_cargo_target_dir("/ws/target/release/deps"));
    assert!(!is_cargo_target_dir("/ws/targets/debugger"));
    assert!(!is_cargo_target_dir("/opt/overmax"));
}
