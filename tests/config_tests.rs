use psst_core::config::{
    AudioQuality, Authentication, KeyCombination, KeyModifier, KeybindAction, KeybindsConfig,
    Preferences, PreferencesTab, Promise,
};
use psst_core::connection::Credentials;
use psst_core::theme::{font_size_valid, parse_hex_color, CustomTheme};

#[test]
fn test_custom_theme_validation_valid() {
    let theme = CustomTheme {
        background: "#1c1c1f".into(),
        surface: "#242429".into(),
        primary_text: "#f2f2f2".into(),
        accent: "#1db954".into(),
        highlight: "#3a7bd5".into(),
        font_family: "System UI".into(),
        font_size: "13.0".into(),
    };
    assert!(theme.validate().is_ok());
}

#[test]
fn test_keybinds_default() {
    let keybinds = KeybindsConfig::default();
    assert!(!keybinds.keybinds.is_empty());

    // Check that play/pause keybind exists
    let has_play_pause = keybinds
        .keybinds
        .iter()
        .any(|kb| matches!(kb.action, KeybindAction::PlayPause));
    assert!(has_play_pause);
}

#[test]
fn test_keybinds_reset_to_defaults() {
    let mut keybinds = KeybindsConfig::default();

    // Clear all keybinds
    keybinds.keybinds.clear();
    assert!(keybinds.keybinds.is_empty());

    // Reset to defaults
    keybinds.reset_to_defaults();
    assert!(!keybinds.keybinds.is_empty());
}

#[test]
fn test_key_combination_display_string() {
    let combo = KeyCombination::new("Space".into(), Some("Space".into()), vec![]);
    assert_eq!(combo.display_string(), "Space");

    let combo_with_ctrl =
        KeyCombination::new("t".into(), Some("KeyT".into()), vec![KeyModifier::Ctrl]);
    assert_eq!(combo_with_ctrl.display_string(), "Ctrl+t");

    let combo_with_multiple = KeyCombination::new(
        "f".into(),
        Some("KeyF".into()),
        vec![KeyModifier::Ctrl, KeyModifier::Shift],
    );
    assert_eq!(combo_with_multiple.display_string(), "Ctrl+Shift+f");
}

#[test]
fn test_keybind_action_display_names() {
    assert_eq!(KeybindAction::PlayPause.display_name(), "Play/Pause");
    assert_eq!(KeybindAction::Next.display_name(), "Next Track");
    assert_eq!(
        KeybindAction::NavigateHome.display_name(),
        "Navigate to Home"
    );
}

fn theme_with(background: &str, font_size: &str) -> CustomTheme {
    CustomTheme {
        background: background.into(),
        font_size: font_size.into(),
        ..CustomTheme::default()
    }
}

#[test]
fn custom_theme_rejects_bad_colors() {
    let err = theme_with("invalid", "13.0").validate().unwrap_err();
    assert_eq!(err, "Invalid color for background: 'invalid' (expected #RRGGBB format)");
    let err = theme_with("#12345g", "13.0").validate().unwrap_err();
    assert_eq!(err, "Invalid hex color for background: '#12345g' (must contain only 0-9, A-F)");
    assert!(theme_with("  ABCDEF ", "13.0").validate().is_ok());
    assert!(theme_with("#1234567", "13.0").validate().is_err());
}

#[test]
fn custom_theme_font_size_range() {
    assert!(theme_with("#000000", "invalid").validate().is_err());
    assert!(theme_with("#000000", "50.0").validate().is_err());
    assert!(font_size_valid("8"));
    assert!(font_size_valid("32"));
    assert!(font_size_valid("32.000"));
    assert!(font_size_valid("+12.5"));
    assert!(font_size_valid("8."));
    assert!(!font_size_valid("32.01"));
    assert!(!font_size_valid("7.999"));
    assert!(!font_size_valid("-13"));
    assert!(!font_size_valid(""));
    assert!(!font_size_valid("."));
    assert!(!font_size_valid("1.2.3"));
    assert!(!font_size_valid("99999999999999999999999"));
}

#[test]
fn custom_theme_default_is_valid() {
    let theme = CustomTheme::default();
    assert_eq!(theme.font_family, "System UI");
    assert_eq!(theme.font_size, "13.0");
    assert!(theme.validate().is_ok());
}

#[test]
fn keybinds_conflicts_and_updates() {
    let mut config = KeybindsConfig::default();
    let ctrl_t = KeyCombination::new("t".into(), Some("KeyT".into()), vec![KeyModifier::Ctrl]);
    assert_eq!(
        config.conflicting_action(&ctrl_t, KeybindAction::PlayPause),
        Some(KeybindAction::NavigateSavedTracks)
    );
    assert_eq!(config.conflicting_action(&ctrl_t, KeybindAction::NavigateSavedTracks), None);

    let before = config.keybinds.len();
    config.set_keybind(KeybindAction::Stop, ctrl_t.clone());
    assert_eq!(config.keybinds.len(), before + 1);
    assert_eq!(config.get_keybind(KeybindAction::Stop), Some(&ctrl_t));

    let space = KeyCombination::new("x".into(), None, vec![]);
    config.set_keybind(KeybindAction::PlayPause, space.clone());
    assert_eq!(config.keybinds.len(), before + 1);
    assert_eq!(config.get_keybind(KeybindAction::PlayPause), Some(&space));
    assert_eq!(config.get_keybind(KeybindAction::FocusSearch), None);
    assert_eq!(config.keybinds.len(), 18);
}

#[test]
fn audio_quality_bitrates() {
    assert_eq!(AudioQuality::Low.as_bitrate(), 96);
    assert_eq!(AudioQuality::Normal.as_bitrate(), 160);
    assert_eq!(AudioQuality::default().as_bitrate(), 320);
}

#[test]
fn authentication_prefers_access_token() {
    let mut auth = Authentication::new();
    auth.username = "user".into();
    auth.password = "pass".into();
    let config = auth.session_config(None);
    assert_eq!(
        config.login_creds,
        Credentials::UsernamePassword { username: "user".into(), password: "pass".into() }
    );
    auth.access_token = "token".into();
    let config = auth.session_config(Some("socks5://proxy".into()));
    assert_eq!(config.login_creds, Credentials::AccessToken("token".into()));
    assert_eq!(config.proxy_url, Some("socks5://proxy".to_string()));
    auth.clear();
    assert!(auth.username.is_empty() && auth.password.is_empty());
    assert_eq!(auth.access_token, "token");
}

#[test]
fn preferences_reset_clears_transient_state() {
    let mut auth = Authentication::new();
    auth.username = "user".into();
    auth.lastfm_api_key_input = "key".into();
    auth.result = Promise::Rejected("denied".into());
    let mut prefs = Preferences {
        active: PreferencesTab::Cache,
        cache_size: Promise::Resolved(1024),
        auth,
        lastfm_auth_result: None,
        available_update: None,
        checking_update: false,
        installing_update: false,
        update_install_status: None,
        active_keybind_capture: Some(KeybindAction::Play),
        keybind_capture_display: Some("Ctrl+p".into()),
        keybind_capture_error: None,
        keybind_menu_revision: u64::MAX,
    };
    prefs.reset();
    assert_eq!(prefs.cache_size, Promise::Empty);
    assert_eq!(prefs.auth.result, Promise::Empty);
    assert!(prefs.auth.lastfm_api_key_input.is_empty());
    assert_eq!(prefs.auth.username, "user");
    assert_eq!(prefs.active_keybind_capture, None);
    assert_eq!(prefs.keybind_capture_display, None);
    assert_eq!(prefs.keybind_menu_revision, 0);
    assert_eq!(prefs.active, PreferencesTab::Cache);
}

#[test]
fn hex_colors_parse_to_bytes() {
    assert_eq!(parse_hex_color("#1db954"), Some((0x1d, 0xb9, 0x54)));
    assert_eq!(parse_hex_color("  FFfF00 "), Some((255, 255, 0)));
    assert_eq!(parse_hex_color("#12345"), None);
    assert_eq!(parse_hex_color("#12345z"), None);
    assert_eq!(parse_hex_color("a\u{e9}123"), None);
}
