use powerpaste::clipboard::{detect_content_type, image_hash, text_hash, set_clipboard_files, ClipboardWatcher};
use powerpaste::commands::{
    overlay_size_for_monitor, paste_plan, normalize_pinboard, provider_account, parse_item_id,
    parse_paste_item_id, set_overlay_preferred_size, get_overlay_preferred_size_global,
    file_paths_of_text, PastePlan, delete_item_plan, list_page_query, sync_settings_update,
    get_system_accent_color, set_current_ui_mode, get_current_ui_mode,
};
use powerpaste::encoding::uuid_string;
use powerpaste::models::{ClipboardItem, ClipboardItemKind, Settings, SyncProvider, UiMode,
    default_trash_enabled, default_trash_retention};
use powerpaste::platform::{percent_decode, mime_to_uti, file_paths_from_urls, check_permissions,
    get_clipboard_change_count, query_frontmost_app_info, png_for_clipboard, decode_for_clipboard};
use powerpaste::settings::{HostOs, set_theme, set_hotkey, load_or_init_settings, fresh_settings,
    ensure_sync_salt_b64, device_id_from_bytes, new_device_id, add_connected_provider,
    remove_connected_provider};
use powerpaste::store::{
    text_to_store, insert_text_plan, InsertPlan, SqlValue, row_to_item, ItemRow, image_dedup_key,
    list_items_paginated_query, list_items_statement, cleanup_old_items_statement,
    cleanup_old_trash_statement, migration_outcome, image_data_url, count_inserted, rgba_to_png,
    insert_image_plan, md5_hash, BUMP_SQL, INSERT_TEXT_SQL, PAGE_SEARCH_SQL, PAGE_ACTIVE_SQL,
    TRASH_OLD_SQL, DELETE_OLD_SQL, LIST_ALL_SQL, now_ms,
};
use powerpaste::sync::{encrypt, encrypt_with_nonce, decrypt, derive_key, salt_from_settings,
    sync_target, seal_payload, open_payload};
use powerpaste::watcher::{WatcherState, WatchEvent, WatchAction, WatchStage, TextProbe, ImageProbe};

fn item(text: &str) -> ClipboardItem {
    ClipboardItem {
        id: 7,
        kind: ClipboardItemKind::Text,
        text: text.to_string(),
        created_at_ms: 100,
        pinned: false,
        pinboard: None,
        image_width: None,
        image_height: None,
        image_size_bytes: None,
        image_mime: None,
        file_paths: None,
        content_type: None,
        source_app_name: None,
        source_app_bundle_id: None,
        is_trashed: Some(true),
        deleted_at_ms: Some(50),
    }
}

fn settings() -> Settings {
    Settings {
        device_id: "dev".to_string(),
        sync_enabled: false,
        sync_provider: None,
        sync_folder: None,
        sync_salt_b64: None,
        hotkey: "Ctrl+Shift+V".to_string(),
        theme: "dark".to_string(),
        ui_mode: UiMode::Floating,
        show_dock_icon: false,
        history_retention_days: None,
        trash_enabled: true,
        trash_retention_days: Some(30),
        connected_providers: Vec::new(),
        launch_at_startup: false,
    }
}

#[test]
fn content_type_detection() {
    assert_eq!(detect_content_type("  https://example.com/a  ", false).as_deref(), Some("url"));
    assert_eq!(detect_content_type("https://example.com/a b", false), None);
    assert_eq!(detect_content_type("http://a\nhttp://b", false), None);
    assert_eq!(detect_content_type("/tmp", true).as_deref(), Some("file"));
    assert_eq!(detect_content_type("/tmp", false), None);
    assert_eq!(detect_content_type("C:\\Users", false).as_deref(), Some("file"));
    assert_eq!(detect_content_type("d:/x", false).as_deref(), Some("file"));
    assert_eq!(detect_content_type("C:", false), None);
    assert_eq!(detect_content_type("hello", false), None);
}

#[test]
fn text_hash_ignores_surrounding_whitespace() {
    assert_eq!(text_hash("  hello \n"), text_hash("hello"));
    assert_ne!(text_hash("hello"), text_hash("hello world"));
    assert_eq!(image_hash(&[1, 2, 3]), image_hash(&[1, 2, 3]));
    assert_eq!(md5_hash(&[1, 2, 3]), image_hash(&[1, 2, 3]));
}

#[test]
fn watcher_stops_on_request() {
    let w = ClipboardWatcher::new();
    assert!(!w.stop_requested());
    let w2 = w.clone();
    w.stop();
    assert!(w2.stop_requested());
}

#[test]
fn watcher_stores_new_text_once() {
    let s = WatcherState::new(5);
    assert!(s.stage == WatchStage::AwaitTick);
    // Unchanged counter: wait.
    let (s, a) = s.step(WatchEvent::Tick { stop_requested: false, change_count: 5 });
    assert!(matches!(a, WatchAction::Sleep(300)));
    // Changed counter: ask for the source app, then read the image.
    let (s, a) = s.step(WatchEvent::Tick { stop_requested: false, change_count: 6 });
    assert!(matches!(a, WatchAction::QuerySourceApp));
    let (s, a) = s.step(WatchEvent::SourceApp { name: Some("Editor".to_string()), bundle_id: None });
    assert!(matches!(a, WatchAction::ReadImage));
    let (s, a) = s.step(WatchEvent::Image(None));
    assert!(matches!(a, WatchAction::ReadFileUrls));
    let (s, a) = s.step(WatchEvent::FileUrls(None));
    assert!(matches!(a, WatchAction::ReadText));
    let (s, a) = s.step(WatchEvent::Text(Some(TextProbe { text: "https://x.org".to_string(), path_exists: false })));
    match &a {
        WatchAction::InsertText { text, content_type, source_app_name, source_app_bundle_id } => {
            assert_eq!(text, "https://x.org");
            assert_eq!(content_type.as_deref(), Some("url"));
            assert_eq!(source_app_name.as_deref(), Some("Editor"));
            assert_eq!(*source_app_bundle_id, None);
        }
        _ => panic!("expected an insertion"),
    }
    let (s, a) = s.step(WatchEvent::Stored(true));
    assert!(matches!(a, WatchAction::Sleep(250)));
    assert!(s.processed_this_change);
    assert_eq!(s.last_text_hash, Some(text_hash("https://x.org")));
    // Same counter again: nothing is read.
    let (s, a) = s.step(WatchEvent::Tick { stop_requested: false, change_count: 6 });
    assert!(matches!(a, WatchAction::Sleep(300)));
    // A new change with the same text backs off instead of storing it again.
    let (s, _) = s.step(WatchEvent::Tick { stop_requested: false, change_count: 7 });
    let (s, _) = s.step(WatchEvent::SourceApp { name: None, bundle_id: None });
    let (s, _) = s.step(WatchEvent::Image(None));
    let (s, _) = s.step(WatchEvent::FileUrls(None));
    let (s, a) = s.step(WatchEvent::Text(Some(TextProbe { text: " https://x.org ".to_string(), path_exists: false })));
    assert!(matches!(a, WatchAction::Sleep(350)));
    let (s, a) = s.step(WatchEvent::Tick { stop_requested: true, change_count: 7 });
    assert!(matches!(a, WatchAction::Stop));
    assert!(s.stage == WatchStage::Stopped);
}

#[test]
fn watcher_image_and_files() {
    let s = WatcherState::new(1);
    let (s, _) = s.step(WatchEvent::Tick { stop_requested: false, change_count: 2 });
    let (s, _) = s.step(WatchEvent::SourceApp { name: None, bundle_id: Some("b".to_string()) });
    // An image over the size limit is skipped but remembered.
    let (s, a) = s.step(WatchEvent::Image(Some(ImageProbe { hash: 9, size_bytes: 6 * 1024 * 1024 })));
    assert!(matches!(a, WatchAction::Sleep(250)));
    assert_eq!(s.last_image_hash, Some(9));
    let (s, _) = s.step(WatchEvent::Tick { stop_requested: false, change_count: 3 });
    let (s, _) = s.step(WatchEvent::SourceApp { name: None, bundle_id: None });
    let (s, a) = s.step(WatchEvent::Image(Some(ImageProbe { hash: 10, size_bytes: 100 })));
    assert!(matches!(a, WatchAction::InsertImage { .. }));
    // A failed insertion falls through to file URLs.
    let (s, a) = s.step(WatchEvent::Stored(false));
    assert!(matches!(a, WatchAction::ReadFileUrls));
    let (s, a) = s.step(WatchEvent::FileUrls(Some(vec!["/a".to_string(), "/b c".to_string()])));
    match &a {
        WatchAction::InsertFiles { text, content_type, .. } => {
            assert_eq!(text, "/a\n/b c");
            assert_eq!(content_type.as_deref(), Some("file"));
        }
        _ => panic!("expected file insertion"),
    }
    let (s, a) = s.step(WatchEvent::Stored(true));
    assert!(matches!(a, WatchAction::Sleep(250)));
    assert_eq!(s.last_text_hash, Some(text_hash("/a\n/b c")));
    assert_eq!(s.last_image_hash, Some(9));
}

#[test]
fn watcher_backs_off_without_text() {
    // No change counter (0): every poll reads the clipboard until something is stored.
    let mut s = WatcherState::new(0);
    let mut delays = Vec::new();
    for _ in 0..10 {
        let (s1, a) = s.step(WatchEvent::Tick { stop_requested: false, change_count: 0 });
        assert!(matches!(a, WatchAction::ReadImage));
        let (s2, _) = s1.step(WatchEvent::Image(None));
        let (s3, _) = s2.step(WatchEvent::FileUrls(None));
        let (s4, a) = s3.step(WatchEvent::Text(None));
        match a {
            WatchAction::Sleep(ms) => delays.push(ms),
            _ => panic!("expected a wait"),
        }
        s = s4;
    }
    assert_eq!(delays, vec![350, 450, 550, 650, 750, 850, 950, 1000, 1000, 1000]);
}

#[test]
fn sync_roundtrip_and_errors() {
    let salt = [3u8; 16];
    let pt = b"{\"v\":1}".to_vec();
    let enc = encrypt("secret", &salt, &pt).unwrap();
    assert_eq!(enc.v, 1);
    assert_eq!(enc.salt_b64, "AwMDAwMDAwMDAwMDAwMDAw==");
    assert_eq!(decrypt("secret", &enc).unwrap(), pt);
    assert_eq!(decrypt("wrong", &enc).unwrap_err(), "decrypt failed (wrong passphrase?)");

    let fixed = encrypt_with_nonce("secret", &salt, &[0u8; 12], &pt).unwrap();
    assert_eq!(fixed.nonce_b64, "AAAAAAAAAAAAAAAA");
    let again = encrypt_with_nonce("secret", &salt, &[0u8; 12], &pt).unwrap();
    assert_eq!(fixed.ct_b64, again.ct_b64);
    assert_eq!(decrypt("secret", &fixed).unwrap(), pt);

    let short = encrypt("secret", &[1u8; 4], &pt).unwrap_err();
    assert!(short.starts_with("argon2 failed: "));
    assert!(derive_key("pw", &[1u8; 7]).is_err());
    assert_eq!(derive_key("pw", &[1u8; 8]).unwrap(), derive_key("pw", &[1u8; 8]).unwrap());

    let mut bad = encrypt("secret", &salt, &pt).unwrap();
    bad.nonce_b64 = "AAAA".to_string();
    assert_eq!(decrypt("secret", &bad).unwrap_err(), "invalid nonce length");
    bad.nonce_b64 = "!!".to_string();
    assert!(decrypt("secret", &bad).unwrap_err().starts_with("invalid nonce_b64: "));
    bad.salt_b64 = "*".to_string();
    assert!(decrypt("secret", &bad).unwrap_err().starts_with("invalid salt_b64: "));
}

#[test]
fn sync_settings_and_payloads() {
    let mut s = settings();
    assert_eq!(sync_target(&s).unwrap(), None);
    s.sync_enabled = true;
    assert_eq!(sync_target(&s).unwrap_err(), "sync is enabled but sync folder is not set");
    s.sync_folder = Some("   ".to_string());
    assert!(sync_target(&s).is_err());
    s.sync_folder = Some("/sync".to_string());
    assert_eq!(sync_target(&s).unwrap(), Some("/sync".to_string()));

    assert_eq!(salt_from_settings(&s).unwrap_err(), "sync salt missing");
    assert_eq!(seal_payload(&s, Some("pw".to_string()), b"x").unwrap_err(), "sync salt missing");
    let s = ensure_sync_salt_b64(s);
    let salt = salt_from_settings(&s).unwrap();
    assert_eq!(salt.len(), 16);
    let kept = ensure_sync_salt_b64(Settings { sync_salt_b64: Some("c2FsdHNhbHQ=".to_string()), ..settings() });
    assert_eq!(kept.sync_salt_b64.as_deref(), Some("c2FsdHNhbHQ="));
    assert_eq!(seal_payload(&s, None, b"x").unwrap_err(), "sync passphrase not set");
    let enc = seal_payload(&s, Some("pw".to_string()), b"payload").unwrap();
    assert_eq!(open_payload(Some("pw".to_string()), &enc).unwrap(), b"payload".to_vec());
    assert_eq!(open_payload(None, &enc).unwrap_err(), "sync passphrase not set");
}

#[test]
fn settings_rules() {
    let s = set_theme(settings(), "  light ".to_string()).unwrap();
    assert_eq!(s.theme, "light");
    assert_eq!(set_theme(settings(), "   ".to_string()).unwrap_err(), "theme cannot be empty");
    let s = set_hotkey(s, " Alt+V ".to_string()).unwrap();
    assert_eq!(s.hotkey, "Alt+V");
    assert_eq!(set_hotkey(settings(), "".to_string()).unwrap_err(), "hotkey cannot be empty");

    let blank = Settings { device_id: String::new(), hotkey: " ".to_string(), theme: String::new(), ..settings() };
    let loaded = load_or_init_settings(Some(blank), HostOs::MacOs);
    assert_eq!(loaded.device_id.len(), 22);
    assert_eq!(loaded.hotkey, "Command+Shift+V");
    assert_eq!(loaded.theme, "system");
    let again = load_or_init_settings(Some(Settings { ..loaded }), HostOs::MacOs);
    assert_eq!(again.hotkey, "Command+Shift+V");

    let fresh = fresh_settings(HostOs::MacOs);
    assert!(fresh.trash_enabled);
    assert_eq!(fresh.trash_retention_days, Some(30));
    assert!(!fresh.sync_enabled);
    assert_eq!(fresh.ui_mode, UiMode::Floating);
    assert!(default_trash_enabled());
    assert_eq!(default_trash_retention(), Some(30));
    assert_ne!(new_device_id(), new_device_id());
    assert_eq!(device_id_from_bytes(&[0u8; 16]), "AAAAAAAAAAAAAAAAAAAAAA");
    assert_eq!(device_id_from_bytes(&[0xfb; 16]), "-_v7-_v7-_v7-_v7-_v7-w");

    let s = add_connected_provider(settings(), provider_account(SyncProvider::OneDrive).unwrap());
    let s = add_connected_provider(s, provider_account(SyncProvider::OneDrive).unwrap());
    let s = add_connected_provider(s, provider_account(SyncProvider::GoogleDrive).unwrap());
    assert_eq!(s.connected_providers.len(), 2);
    let s = remove_connected_provider(s, SyncProvider::OneDrive);
    assert_eq!(s.connected_providers.len(), 1);
    assert_eq!(s.connected_providers[0].account_email, "user@gmail.com");
}

#[test]
fn sync_settings_changes() {
    let u = sync_settings_update(settings(), true, Some(SyncProvider::CustomFolder), Some("/f".to_string()),
        Some("  pw ".to_string()), Some(" dark ".to_string())).unwrap();
    assert!(u.settings.sync_enabled);
    assert!(u.settings.sync_salt_b64.is_some());
    assert_eq!(u.store_passphrase.as_deref(), Some("pw"));
    assert!(!u.clear_passphrase);
    let u = sync_settings_update(settings(), false, None, None, Some(" ".to_string()), None).unwrap();
    assert!(u.clear_passphrase);
    assert!(u.store_passphrase.is_none());
    assert!(u.settings.sync_salt_b64.is_none());
    assert!(sync_settings_update(settings(), true, None, None, None, Some("".to_string())).is_err());
}

#[test]
fn ids_and_rows() {
    let id: u128 = 0x550e8400_e29b_41d4_a716_446655440000;
    assert_eq!(uuid_string(id), "550e8400-e29b-41d4-a716-446655440000");
    assert_eq!(parse_item_id("550e8400-e29b-41d4-a716-446655440000").unwrap(), id);
    assert_eq!(parse_item_id("nope").unwrap_err(), "invalid id");
    assert!(parse_paste_item_id("nope").unwrap_err().starts_with("invalid item id: "));
    let row = ItemRow {
        id: uuid_string(id),
        kind: "image".to_string(),
        text: "abc".to_string(),
        created_at_ms: 5,
        pinned: 2,
        pinboard: Some("Work".to_string()),
        image_width: Some(640),
        image_height: Some(-1),
        image_size_bytes: Some(10),
        file_paths: None,
        content_type: Some("image".to_string()),
        source_app_name: None,
        source_app_bundle_id: None,
        is_trashed: Some(0),
        deleted_at_ms: None,
    };
    let it = row_to_item(row);
    assert_eq!(it.id, id);
    assert_eq!(it.kind, ClipboardItemKind::Image);
    assert!(it.pinned);
    assert_eq!(it.image_width, Some(640));
    assert_eq!(it.image_height, Some(u32::MAX));
    assert_eq!(it.is_trashed, Some(false));
    let other = row_to_item(ItemRow { id: "bad".to_string(), kind: "weird".to_string(), is_trashed: None, ..ItemRow {
        id: String::new(), kind: String::new(), text: String::new(), created_at_ms: 0, pinned: 0, pinboard: None,
        image_width: None, image_height: None, image_size_bytes: None, file_paths: None, content_type: None,
        source_app_name: None, source_app_bundle_id: None, is_trashed: None, deleted_at_ms: None } });
    assert_eq!(other.kind, ClipboardItemKind::Text);
    assert_eq!((other.id >> 76) & 0xf, 4);
}

#[test]
fn text_insertion_decisions() {
    assert_eq!(text_to_store("abc\r\n\n").as_deref(), Some("abc"));
    assert_eq!(text_to_store(" a \n").as_deref(), Some(" a "));
    assert_eq!(text_to_store("\n\r\n"), None);
    // Already the most recent item outside the trash: nothing to do.
    let live = ClipboardItem { is_trashed: None, deleted_at_ms: None, ..item("a") };
    assert!(matches!(insert_text_plan("a".to_string(), Some(live), Some(100), 200, None, None, None), InsertPlan::Unchanged));
    let restored = ClipboardItem { is_trashed: Some(false), deleted_at_ms: None, ..item("a") };
    assert!(matches!(insert_text_plan("a".to_string(), Some(restored), Some(100), 200, None, None, None), InsertPlan::Unchanged));
    // The most recent item, but in the trash: moved to the top and out of the trash.
    match insert_text_plan("a".to_string(), Some(item("a")), Some(100), 200, None, None, None) {
        InsertPlan::Bump { item, .. } => {
            assert_eq!(item.created_at_ms, 200);
            assert_eq!(item.is_trashed, None);
        }
        _ => panic!("expected a bump"),
    }
    // Existing but older: moved to the top and out of the trash.
    match insert_text_plan("a".to_string(), Some(item("a")), Some(150), 200, None, None, None) {
        InsertPlan::Bump { item, statement } => {
            assert_eq!(item.created_at_ms, 200);
            assert_eq!(item.is_trashed, None);
            assert_eq!(item.deleted_at_ms, None);
            assert_eq!(statement.sql, BUMP_SQL);
            assert!(matches!(statement.params[0], SqlValue::Integer(200)));
            match &statement.params[1] {
                SqlValue::Text(t) => assert_eq!(t, &uuid_string(7)),
                _ => panic!(),
            }
        }
        _ => panic!("expected a bump"),
    }
    match insert_text_plan("new".to_string(), None, None, 300, Some("url".to_string()), Some("App".to_string()), None) {
        InsertPlan::Insert { item, statement } => {
            assert_eq!(item.text, "new");
            assert_eq!(item.content_type.as_deref(), Some("url"));
            assert_eq!(statement.sql, INSERT_TEXT_SQL);
            assert_eq!(statement.params.len(), 9);
            assert!(matches!(statement.params[5], SqlValue::Null));
            assert!(matches!(statement.params[8], SqlValue::Null));
            match &statement.params[0] {
                SqlValue::Text(t) => assert_eq!(parse_item_id(t).unwrap(), item.id),
                _ => panic!(),
            }
        }
        _ => panic!("expected an insertion"),
    }
}

#[test]
fn image_insertion() {
    let key = image_dedup_key(&[0u8; 2000]);
    assert_eq!(key, format!("{:x}", md5_hash(&[0u8; 1024])));
    assert_eq!(image_dedup_key(&[1, 2]), format!("{:x}", md5_hash(&[1, 2])));
    assert_eq!(rgba_to_png(&[0u8; 7], 1, 2).unwrap_err(), "failed to create image buffer from RGBA data");
    let png = rgba_to_png(&[255u8; 16], 2, 2).unwrap();
    assert_eq!(&png[1..4], b"PNG");
    match insert_image_plan(key.clone(), &[255u8; 16], 2, 2, None, None, 9, None, None).unwrap() {
        InsertPlan::Insert { item, statement } => {
            assert_eq!(item.text, key);
            assert_eq!(item.image_width, Some(2));
            assert_eq!(item.image_size_bytes, Some(png.len() as u64));
            assert_eq!(statement.params.len(), 13);
            match &statement.params[10] { SqlValue::Blob(b) => assert_eq!(b, &png), _ => panic!() }
        }
        _ => panic!(),
    }
    let url = image_data_url(Some(vec![1, 2, 3])).unwrap();
    assert_eq!(url, "data:image/png;base64,AQID");
    assert_eq!(image_data_url(Some(vec![])), None);
    assert_eq!(image_data_url(None), None);
}

#[test]
fn listing_and_cleanup() {
    let q = list_items_paginated_query(500, 20, Some("  foo ".to_string()));
    assert_eq!(q.page.sql, PAGE_SEARCH_SQL);
    match &q.page.params[0] { SqlValue::Text(t) => assert_eq!(t, "%foo%"), _ => panic!() }
    assert!(matches!(q.page.params[1], SqlValue::Integer(100)));
    assert!(matches!(q.page.params[2], SqlValue::Integer(20)));
    let q = list_items_paginated_query(0, 0, Some("   ".to_string()));
    assert_eq!(q.page.sql, PAGE_ACTIVE_SQL);
    assert!(matches!(q.page.params[0], SqlValue::Integer(1)));
    let s = list_items_statement(6000, None);
    assert_eq!(s.sql, LIST_ALL_SQL);
    assert!(matches!(s.params[0], SqlValue::Integer(5000)));
    let t = list_page_query(10, 0, None, Some(true));
    assert!(t.page.sql.contains("is_trashed = 1"));

    let c = cleanup_old_items_statement(2, true, 1_000_000_000);
    assert_eq!(c.sql, TRASH_OLD_SQL);
    assert!(matches!(c.params[0], SqlValue::Integer(1_000_000_000)));
    assert!(matches!(c.params[1], SqlValue::Integer(827_200_000)));
    let d = cleanup_old_items_statement(1, false, 0);
    assert_eq!(d.sql, DELETE_OLD_SQL);
    assert!(matches!(d.params[0], SqlValue::Integer(-86_400_000)));
    let e = cleanup_old_trash_statement(30, 2_592_000_000);
    assert!(matches!(e.params[0], SqlValue::Integer(0)));

    let del = delete_item_plan(1, true, 5);
    assert!(del.sql.starts_with("UPDATE"));
    let del = delete_item_plan(1, false, 5);
    assert!(del.sql.starts_with("DELETE"));

    assert!(migration_outcome("003", None).is_ok());
    assert!(migration_outcome("003", Some("duplicate column name: image_width".to_string())).is_ok());
    assert_eq!(migration_outcome("003", Some("disk full".to_string())).unwrap_err(), "failed to apply migration 003: disk full");
    assert_eq!(count_inserted(&vec![1, 0, 1, 1]), 3);
    assert!(now_ms() > 1_600_000_000_000);
}

#[test]
fn platform_helpers() {
    assert_eq!(percent_decode("/Users/me/My%20File.txt"), "/Users/me/My File.txt");
    assert_eq!(percent_decode("a%+Fb"), "a\u{f}b");
    assert_eq!(percent_decode("100%"), "100%");
    assert_eq!(percent_decode("%zz%41"), "%zzA");
    assert_eq!(percent_decode("%FF"), "%FF");
    assert_eq!(percent_decode("%C3%A9"), "é");
    assert_eq!(mime_to_uti("image/jpg"), Some("public.jpeg"));
    assert_eq!(mime_to_uti("image/gif"), None);
    let urls = vec![Some("file:///tmp/a%20b".to_string()), None, Some("http://x".to_string()), Some("file://".to_string())];
    assert_eq!(file_paths_from_urls(&urls), Some(vec!["/tmp/a b".to_string()]));
    assert_eq!(file_paths_from_urls(&vec![None]), None);
    let p = check_permissions("/bin/app".to_string()).unwrap();
    assert_eq!(p.platform, "linux");
    assert!(!p.can_paste);
    assert_eq!(get_clipboard_change_count(), 0);
    assert_eq!(query_frontmost_app_info(), (None, None));
    assert_eq!(set_clipboard_files(&["/a".to_string()]).unwrap_err(), "file clipboard is not supported on this platform");
    assert!(png_for_clipboard(&[], 0, 0).is_none());
    let enc = png_for_clipboard(&[9u8; 4], 1, 1).unwrap();
    assert_eq!(enc.mime, "image/png");
    let px = decode_for_clipboard(&enc.bytes).unwrap();
    assert_eq!((px.width, px.height), (1, 1));
    assert_eq!(px.bytes, vec![9u8; 4]);
    assert!(decode_for_clipboard(b"not an image").unwrap_err().starts_with("failed to decode image: "));
}

#[test]
fn commands_logic() {
    assert_eq!(overlay_size_for_monitor(1920, 1080, UiMode::Floating), (320, 480));
    assert_eq!(overlay_size_for_monitor(1920, 801, UiMode::Floating), (320, 401));
    assert_eq!(overlay_size_for_monitor(1920, 1080, UiMode::Fixed), (1901, 248));
    assert_eq!(overlay_size_for_monitor(50, 50, UiMode::Fixed), (50, 12));
    let mut slot = None;
    assert_eq!(set_overlay_preferred_size(&mut slot, 0, 10).unwrap_err(), "invalid size");
    assert_eq!(get_overlay_preferred_size_global(&slot), None);
    set_overlay_preferred_size(&mut slot, 300, 200).unwrap();
    assert_eq!(get_overlay_preferred_size_global(&slot), Some((300, 200)));
    let mut mode = UiMode::Floating;
    set_current_ui_mode(&mut mode, UiMode::Fixed);
    assert_eq!(get_current_ui_mode(&mode), UiMode::Fixed);
    assert_eq!(get_system_accent_color(), "#2563EB");

    let mut f = item("/x\n /y \r\n\n");
    f.kind = ClipboardItemKind::File;
    match paste_plan(&f) {
        PastePlan::Files(p) => assert_eq!(p, vec!["/x".to_string(), "/y".to_string()]),
        _ => panic!(),
    }
    let mut g = item("ignored");
    g.content_type = Some("file".to_string());
    g.file_paths = Some("/only".to_string());
    assert!(matches!(paste_plan(&g), PastePlan::Files(ref p) if p == &vec!["/only".to_string()]));
    let mut i = item("img");
    i.kind = ClipboardItemKind::Image;
    assert!(matches!(paste_plan(&i), PastePlan::Image));
    assert!(matches!(paste_plan(&item("hi")), PastePlan::Text(ref t) if t == "hi"));
    assert_eq!(file_paths_of_text(""), Vec::<String>::new());

    assert_eq!(normalize_pinboard(Some("  ".to_string())), None);
    assert_eq!(normalize_pinboard(Some(" Work".to_string())).as_deref(), Some(" Work"));
    assert_eq!(provider_account(SyncProvider::CustomFolder).unwrap_err(), "Custom folder does not support OAuth");
    let a = provider_account(SyncProvider::IcloudDrive).unwrap();
    assert_eq!(a.account_id, "IcloudDrive-user-id");
    assert_eq!(a.account_email, "user@icloud.com");
}
