use fedi_sleuth::clamp_days_back;
use fedi_sleuth::models::AppSettings;
use fedi_sleuth::models::AppState;
use fedi_sleuth::models::BlueskyAuth;
use fedi_sleuth::models::LegacyApiSettings;
use fedi_sleuth::models::Platform;
use fedi_sleuth::models::PlatformAuth;
use fedi_sleuth::models::PlatformSearchResults;
use fedi_sleuth::models::SearchContext;
use fedi_sleuth::models::SearchType;
use fedi_sleuth::models::Theme;
use fedi_sleuth::models::platform_display_name;

#[test]
fn days_back_in_range_is_kept() {
    assert_eq!(clamp_days_back(1), 1);
    assert_eq!(clamp_days_back(180), 180);
    assert_eq!(clamp_days_back(3650), 3650);
}

#[test]
fn days_back_out_of_range_is_clamped() {
    assert_eq!(clamp_days_back(0), 1);
    assert_eq!(clamp_days_back(3651), 3650);
    assert_eq!(clamp_days_back(u32::MAX), 3650);
}

#[test]
fn platform_names_and_folders() {
    assert_eq!(Platform::Pixelfed.name(), "Pixelfed");
    assert_eq!(Platform::Mastodon.name(), "Mastodon");
    assert_eq!(Platform::Bluesky.name(), "Bluesky");
    assert_eq!(Platform::Pixelfed.folder_name(), "Pixelfed");
    assert_eq!(Platform::Mastodon.folder_name(), "Mastodon");
    assert_eq!(Platform::Bluesky.folder_name(), "bsky");
}

#[test]
fn platform_display_names() {
    assert_eq!(
        platform_display_name(Platform::Pixelfed, "https://pixelfed.social"),
        format!("{} Pixelfed (https://pixelfed.social)", Platform::Pixelfed.emoji())
    );
    assert_eq!(
        platform_display_name(Platform::Mastodon, "https://mastodon.social"),
        format!("{} Mastodon (https://mastodon.social)", Platform::Mastodon.emoji())
    );
    assert_eq!(
        platform_display_name(Platform::Bluesky, "ignored"),
        format!("{} Bluesky", Platform::Bluesky.emoji())
    );
}

#[test]
fn folder_prefix_sanitizes_queries() {
    assert_eq!(SearchType::User.get_folder_prefix("@alice"), "alice");
    assert_eq!(
        SearchType::User.get_folder_prefix("@alice@mastodon.social"),
        "alice_at_mastodon.social"
    );
    assert_eq!(SearchType::Hashtag.get_folder_prefix("#sunset"), "sunset");
    assert_eq!(SearchType::Hashtag.get_folder_prefix("sunset"), "sunset");
}

#[test]
fn search_context_folder_name() {
    let ctx = SearchContext::new("@bob".to_string(), SearchType::User, 30);
    assert_eq!(ctx.get_folder_name(), "bob");
    assert_eq!(ctx.days_back, 30);
}

#[test]
fn default_settings() {
    let s = AppSettings::default();
    assert_eq!(s.instance_url, "pixelfed.social");
    assert!(!s.api.pixelfed.enabled);
    assert_eq!(s.api.mastodon.instance_url, "mastodon.social");
    assert_eq!(s.download.max_concurrent, 3);
    assert!(s.download.organize_by_date);
    let st = AppState::default();
    assert_eq!(st.settings.instance_url, "pixelfed.social");
    assert_eq!(Theme::System.as_text(), "system");
}

#[test]
fn migrate_from_legacy_moves_credentials_to_pixelfed() {
    let legacy = LegacyApiSettings {
        use_oauth: true,
        app_name: "Old App".to_string(),
        client_id: "cid".to_string(),
        client_secret: "SECRET-REDACTED".to_string(),
        access_token: Some("tok".to_string()),
    };
    let s = AppSettings::migrate_from_legacy("pix.example".to_string(), legacy);
    assert_eq!(s.instance_url, "pix.example");
    assert!(s.api.pixelfed.enabled);
    assert_eq!(s.api.pixelfed.instance_url, "pix.example");
    assert_eq!(s.api.pixelfed.app_name, "Old App");
    assert_eq!(s.api.pixelfed.client_id, "cid");
    assert_eq!(s.api.pixelfed.access_token.as_deref(), Some("tok"));
    assert!(!s.api.mastodon.enabled);
    assert_eq!(s.api.mastodon.instance_url, "mastodon.social");
    assert!(!s.api.bluesky.enabled);
}

#[test]
fn platform_auth_needs_enabled_and_nonempty_token() {
    let mut a = PlatformAuth {
        enabled: true,
        instance_url: "x".to_string(),
        app_name: "x".to_string(),
        client_id: String::new(),
        client_secret: String::new(),
        access_token: Some("tok".to_string()),
    };
    assert!(a.is_authenticated());
    a.access_token = Some(String::new());
    assert!(!a.is_authenticated());
    a.access_token = None;
    assert!(!a.is_authenticated());
    a.access_token = Some("tok".to_string());
    a.enabled = false;
    assert!(!a.is_authenticated());
}

#[test]
fn bluesky_auth_needs_enabled_and_session_token() {
    let mut a = BlueskyAuth::default();
    assert!(!a.is_authenticated());
    a.enabled = true;
    assert!(!a.is_authenticated());
    a.access_jwt = Some("jwt".to_string());
    assert!(a.is_authenticated());
    a.access_jwt = Some(String::new());
    assert!(!a.is_authenticated());
}

#[test]
fn group_constructors_keep_error_and_results_apart() {
    let ok = PlatformSearchResults::success(Platform::Mastodon, "label".to_string(), Vec::new());
    assert!(ok.is_success());
    assert_eq!(ok.count(), 0);
    assert!(ok.error.is_none());
    let bad = PlatformSearchResults::error(
        Platform::Mastodon,
        "label".to_string(),
        "boom".to_string(),
    );
    assert!(!bad.is_success());
    assert_eq!(bad.count(), 0);
    assert_eq!(bad.error.as_deref(), Some("boom"));
}
