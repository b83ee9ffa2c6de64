use psst_core::update_checker::{
    DownloadUrls, GitHubAsset, UpdateInfo, UpdatePlatform, UpdatePreferences,
};

#[test]
fn test_version_comparison() {
    assert!(UpdateInfo::is_newer_version("2025.11.16", "2025.11.15"));
    assert!(UpdateInfo::is_newer_version("2025.12.01", "2025.11.30"));
    assert!(!UpdateInfo::is_newer_version("2025.11.15", "2025.11.15"));
    assert!(!UpdateInfo::is_newer_version("2025.11.14", "2025.11.15"));
}

#[test]
fn test_version_with_prefix() {
    assert!(UpdateInfo::is_newer_version("v2025.11.16", "0.1.0"));
    assert!(UpdateInfo::is_newer_version("2025.11.16", "v0.1.0"));
}

#[test]
fn test_should_check_for_updates() {
    let mut prefs = UpdatePreferences::default();

    // Should check on first run
    assert!(prefs.should_check_for_updates());

    // Mark as checked
    prefs.mark_checked();

    // Should not check immediately after
    assert!(!prefs.should_check_for_updates());

    // Simulate 25 hours passed
    prefs.last_check_timestamp -= 25 * 60 * 60;
    assert!(prefs.should_check_for_updates());
}

#[test]
fn test_dismiss_version() {
    let mut prefs = UpdatePreferences::default();

    assert!(!prefs.is_version_dismissed("2025.11.15"));

    prefs.dismiss_version("2025.11.15".to_string());

    assert!(prefs.is_version_dismissed("2025.11.15"));
    assert!(!prefs.is_version_dismissed("2025.11.16"));
}

#[test]
fn test_extract_download_urls() {
    let assets = vec![
        GitHubAsset {
            name: "Psst.exe".to_string(),
            browser_download_url: "https://example.com/Psst.exe".to_string(),
        },
        GitHubAsset {
            name: "Psst.dmg".to_string(),
            browser_download_url: "https://example.com/Psst.dmg".to_string(),
        },
    ];

    let urls = UpdateInfo::extract_download_urls(&assets);

    assert_eq!(urls.windows, "https://example.com/Psst.exe");
    assert_eq!(urls.macos, "https://example.com/Psst.dmg");
    assert!(urls.linux_x86_64.is_empty());
}

fn sample_update_info() -> UpdateInfo {
    UpdateInfo {
        version: "2025.11.17".into(),
        release_url: "https://example.com/release".into(),
        release_notes: String::new(),
        download_urls: DownloadUrls {
            windows: "https://example.com/Psst.exe".into(),
            macos: "https://example.com/Psst.dmg".into(),
            linux_x86_64: "https://example.com/psst-linux-x86_64".into(),
            linux_aarch64: "https://example.com/psst-linux-aarch64".into(),
            deb_amd64: "https://example.com/psst-amd64.deb".into(),
            deb_arm64: "https://example.com/psst-arm64.deb".into(),
        },
    }
}

#[test]
fn test_platform_url_lookup() {
    let info = sample_update_info();

    assert_eq!(
        info.get_download_url_for_platform(UpdatePlatform::Windows),
        Some("https://example.com/Psst.exe")
    );
    assert_eq!(
        info.get_download_url_for_platform(UpdatePlatform::Macos),
        Some("https://example.com/Psst.dmg")
    );
    assert_eq!(
        info.get_download_url_for_platform(UpdatePlatform::LinuxX86_64),
        Some("https://example.com/psst-linux-x86_64")
    );
    assert_eq!(
        info.get_download_url_for_platform(UpdatePlatform::LinuxAarch64),
        Some("https://example.com/psst-linux-aarch64")
    );
    assert_eq!(
        info.get_download_url_for_platform(UpdatePlatform::DebAmd64),
        Some("https://example.com/psst-amd64.deb")
    );
    assert_eq!(
        info.get_download_url_for_platform(UpdatePlatform::DebArm64),
        Some("https://example.com/psst-arm64.deb")
    );
}

#[test]
fn platform_url_missing_when_empty() {
    let mut info = sample_update_info();
    info.download_urls.macos.clear();
    assert_eq!(info.get_download_url_for_platform(UpdatePlatform::Macos), None);
}

#[test]
fn later_asset_with_same_name_wins_and_unknown_names_are_ignored() {
    let assets = vec![
        GitHubAsset { name: "psst-arm64.deb".into(), browser_download_url: "a".into() },
        GitHubAsset { name: "notes.txt".into(), browser_download_url: "b".into() },
        GitHubAsset { name: "psst-arm64.deb".into(), browser_download_url: "c".into() },
    ];
    let urls = UpdateInfo::extract_download_urls(&assets);
    assert_eq!(urls.deb_arm64, "c");
    assert!(urls.windows.is_empty() && urls.deb_amd64.is_empty());
}

#[test]
fn version_comparison_edge_cases() {
    assert!(UpdateInfo::is_newer_version("vv2", "1"));
    assert!(UpdateInfo::is_newer_version("1.0.1", "1.0"));
    assert!(!UpdateInfo::is_newer_version("1.0", "1.0.1"));
    assert!(!UpdateInfo::is_newer_version("", ""));
}

#[test]
fn check_due_at_given_times() {
    let mut prefs = UpdatePreferences::default();
    prefs.last_check_timestamp = 1_000_000;
    assert!(!prefs.is_check_due_at(1_000_000 + 86_399));
    assert!(prefs.is_check_due_at(1_000_000 + 86_400));
    assert!(!prefs.is_check_due_at(10));
    prefs.check_on_startup = false;
    assert!(!prefs.is_check_due_at(u64::MAX));
}

#[test]
fn mark_checked_at_records_the_time() {
    let mut prefs = UpdatePreferences::default();
    prefs.mark_checked_at(500);
    assert_eq!(prefs.last_check_timestamp, 500);
    assert!(!prefs.is_check_due_at(500 + 86_399));
    assert!(prefs.is_check_due_at(500 + 86_400));
}
