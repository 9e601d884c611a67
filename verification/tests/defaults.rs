use powerpaste::native::{is_paste_target, send_input_outcome};
use powerpaste::settings::{default_hotkey, load_or_init_settings, HostOs};
use powerpaste::models::{ClipboardItem, ClipboardItemKind, SyncProvider, UiMode};
use powerpaste::commands::sync_settings_update;
use powerpaste::store::{
    insert_image_plan, millis_or_zero, now_ms, touch_item_statement, upsert_items_statements, InsertPlan,
    SqlValue, TOUCH_SQL, UPSERT_SQL,
};

#[test]
fn first_launch_gives_the_defaults() {
    for os in [HostOs::MacOs, HostOs::Windows, HostOs::Other] {
        let s = load_or_init_settings(None, os);
        assert!(!s.sync_enabled);
        assert!(s.sync_provider.is_none() && s.sync_folder.is_none() && s.sync_salt_b64.is_none());
        assert_eq!(s.theme, "system");
        assert_eq!(s.ui_mode, UiMode::Floating);
        assert!(!s.show_dock_icon);
        assert_eq!(s.device_id.len(), 22);
        assert!(s.trash_enabled);
        assert_eq!(s.trash_retention_days, Some(30));
    }
    assert_eq!(load_or_init_settings(None, HostOs::Windows).hotkey, "Ctrl+Shift+V");
    assert_eq!(load_or_init_settings(None, HostOs::MacOs).hotkey, "Command+Shift+V");
    assert_eq!(default_hotkey(HostOs::Other), "Command+Shift+V");
}

#[test]
fn clock_readings_become_timestamps() {
    assert_eq!(millis_or_zero(None), 0);
    assert_eq!(millis_or_zero(Some(1_700_000_000_123)), 1_700_000_000_123);
    assert!(now_ms() > 1_600_000_000_000);
}

#[test]
fn short_pixel_data_is_refused() {
    let r = insert_image_plan("k".to_string(), &[0u8; 7], 1, 2, None, None, 5, None, None);
    assert_eq!(r.err().as_deref(), Some("failed to create image buffer from RGBA data"));
    assert!(matches!(
        insert_image_plan("k".to_string(), &[0u8; 8], 1, 2, None, None, 5, None, None),
        Ok(InsertPlan::Insert { .. })
    ));
}

#[test]
fn touching_reaches_rows_flagged_untrashed() {
    let st = touch_item_statement(7, 9);
    assert_eq!(st.sql, TOUCH_SQL);
    assert!(TOUCH_SQL.ends_with("WHERE id = ?2 AND is_trashed = 0"));
}

#[test]
fn paste_targets_and_keystroke_outcomes() {
    assert!(is_paste_target("Safari"));
    assert!(!is_paste_target("node"));
    assert!(!is_paste_target("PowerPaste"));
    assert!(!is_paste_target("Code Helper (Renderer)"));
    assert_eq!(send_input_outcome(4, 4), Ok(()));
    assert_eq!(send_input_outcome(2, 4).unwrap_err(), "SendInput only injected 2/4 events");
    assert_eq!(send_input_outcome(0, 12).unwrap_err(), "SendInput only injected 0/12 events");
}

#[test]
fn sync_settings_keep_the_other_fields() {
    let mut s = load_or_init_settings(None, HostOs::MacOs);
    s.show_dock_icon = true;
    s.ui_mode = UiMode::Fixed;
    s.history_retention_days = Some(3);
    let id = s.device_id.clone();
    let u = sync_settings_update(s, true, Some(SyncProvider::CustomFolder), Some("/f".to_string()), None, None).unwrap();
    assert!(u.settings.show_dock_icon);
    assert_eq!(u.settings.ui_mode, UiMode::Fixed);
    assert_eq!(u.settings.history_retention_days, Some(3));
    assert_eq!(u.settings.device_id, id);
}

#[test]
fn upserts_follow_the_items() {
    let item = |id: u128, text: &str| ClipboardItem {
        id,
        kind: ClipboardItemKind::Image,
        text: text.to_string(),
        created_at_ms: 5,
        pinned: true,
        pinboard: None,
        image_width: None,
        image_height: None,
        image_size_bytes: None,
        image_mime: None,
        file_paths: None,
        content_type: None,
        source_app_name: None,
        source_app_bundle_id: None,
        is_trashed: None,
        deleted_at_ms: None,
    };
    let sts = upsert_items_statements(&vec![item(1, "a"), item(2, "b")]);
    assert_eq!(sts.len(), 2);
    assert_eq!(sts[1].sql, UPSERT_SQL);
    assert!(matches!(&sts[1].params[0], SqlValue::Text(t) if t == "00000000-0000-0000-0000-000000000002"));
    assert!(matches!(&sts[1].params[1], SqlValue::Text(t) if t == "text"));
    assert!(matches!(sts[1].params[4], SqlValue::Integer(1)));
}
