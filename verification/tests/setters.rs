use powerpaste::models::{Settings, SyncProvider, UiMode};
use powerpaste::store::{image_dedup_key, text_to_store};
use powerpaste::platform::{
    get_clipboard_file_urls, get_last_frontmost_app_name, open_accessibility_settings,
    open_automation_settings, request_accessibility_permission, request_automation_permission,
    set_last_frontmost_app_name,
};
use powerpaste::settings::{
    set_history_retention, set_launch_at_startup, set_show_dock_icon, set_sync_config,
    set_trash_enabled, set_trash_retention, set_ui_mode,
};

fn base() -> Settings {
    Settings {
        device_id: "dev".to_string(),
        sync_enabled: false,
        sync_provider: None,
        sync_folder: None,
        sync_salt_b64: Some("c2FsdA==".to_string()),
        hotkey: "Ctrl+Shift+V".to_string(),
        theme: "dark".to_string(),
        ui_mode: UiMode::Floating,
        show_dock_icon: false,
        history_retention_days: None,
        trash_enabled: true,
        trash_retention_days: Some(30),
        connected_providers: Vec::new(),
        launch_at_startup: false,
    }
}

#[test]
fn setters_change_one_field() {
    let s = set_history_retention(base(), Some(7));
    assert_eq!(s.history_retention_days, Some(7));
    assert_eq!(s.trash_retention_days, Some(30));
    let s = set_trash_enabled(s, false);
    assert!(!s.trash_enabled);
    let s = set_trash_retention(s, None);
    assert_eq!(s.trash_retention_days, None);
    let s = set_launch_at_startup(s, true);
    assert!(s.launch_at_startup);
    let s = set_show_dock_icon(s, true);
    assert!(s.show_dock_icon);
    let s = set_ui_mode(s, UiMode::Fixed);
    assert_eq!(s.ui_mode, UiMode::Fixed);
    let s = set_sync_config(s, true, Some(SyncProvider::GoogleDrive), Some("/g".to_string()));
    assert!(s.sync_enabled);
    assert_eq!(s.sync_provider, Some(SyncProvider::GoogleDrive));
    assert_eq!(s.sync_folder.as_deref(), Some("/g"));
    assert_eq!(s.device_id, "dev");
    assert_eq!(s.hotkey, "Ctrl+Shift+V");
    assert_eq!(s.sync_salt_b64.as_deref(), Some("c2FsdA=="));
    assert_eq!(s.history_retention_days, Some(7));
}

#[test]
fn platform_services_of_this_build() {
    set_last_frontmost_app_name("Safari".to_string());
    assert_eq!(get_last_frontmost_app_name(), None);
    assert_eq!(get_clipboard_file_urls(), None);
    assert_eq!(open_accessibility_settings(), Ok(()));
    assert_eq!(open_automation_settings(), Ok(()));
    assert_eq!(request_accessibility_permission(), Ok(true));
    assert_eq!(request_automation_permission(), Ok(true));
}

#[test]
fn stored_text_and_image_keys_are_stable() {
    let kept = text_to_store("note\r\n\n").unwrap();
    assert_eq!(kept, "note");
    assert_eq!(text_to_store(&kept), Some(kept.clone()));
    assert_eq!(text_to_store("\n\r"), None);

    let mut a = vec![1u8; 1024];
    let mut b = a.clone();
    a.extend_from_slice(&[2u8; 100]);
    b.extend_from_slice(&[3u8; 500]);
    assert_eq!(image_dedup_key(&a), image_dedup_key(&b));
    assert_ne!(image_dedup_key(&a[..10]), image_dedup_key(&a[..11]));
}
