use powerpaste::native::{
    bundle_query, drop_files_data, first_output_line, icon_cache_file_name, icon_candidates,
    icon_extract_script, info_plist_path, macos_permissions, osascript_answer,
    paste_failure_message, ps_quote, AutomationCheck,
};

#[test]
fn osascript_answers() {
    assert_eq!(osascript_answer(true, "  Safari\n"), Some("Safari".to_string()));
    assert_eq!(osascript_answer(false, "Safari"), None);
    assert_eq!(osascript_answer(true, " \n "), None);
}

#[test]
fn macos_permission_verdicts() {
    let exe = "/Applications/PowerPaste.app/Contents/MacOS/PowerPaste".to_string();
    let ok = macos_permissions(exe.clone(), true, AutomationCheck::Passed);
    assert!(ok.can_paste && ok.automation_ok && ok.accessibility_ok && ok.is_bundled);
    assert_eq!(ok.platform, "macos");
    assert_eq!(ok.details, None);
    assert_eq!(ok.executable_path, exe);

    let both = macos_permissions("/tmp/dev/powerpaste".to_string(), false, AutomationCheck::Failed("x".to_string()));
    assert!(!both.can_paste && !both.is_bundled);
    assert_eq!(both.details.as_deref(), Some("Both Accessibility and Automation permissions are required."));

    let acc = macos_permissions(exe.clone(), false, AutomationCheck::Passed);
    assert_eq!(acc.details.as_deref(), Some("Accessibility permission is required."));

    let blank = macos_permissions(exe.clone(), true, AutomationCheck::Failed("  \n".to_string()));
    assert_eq!(blank.details.as_deref(), Some("Automation check failed"));
    let denied = macos_permissions(exe.clone(), true, AutomationCheck::Failed(" not allowed \n".to_string()));
    assert_eq!(denied.details.as_deref(), Some("not allowed"));
    let missing = macos_permissions(exe, true, AutomationCheck::NotRun("no such file".to_string()));
    assert_eq!(missing.details.as_deref(), Some("Automation check failed: no such file"));
    assert!(!missing.automation_ok);
}

#[test]
fn paste_failures_explain_themselves() {
    let prefix = "Paste failed. On macOS this requires Accessibility + Automation permissions. \
System Settings \u{2192} Privacy & Security \u{2192} Accessibility (enable PowerPaste) and \
Privacy & Security \u{2192} Automation (allow controlling System Events). Details: ";
    assert_eq!(paste_failure_message(" denied ", "out"), format!("{prefix}denied"));
    assert_eq!(paste_failure_message("", " out \n"), format!("{prefix}out"));
    assert_eq!(paste_failure_message(" ", ""), format!("{prefix}osascript paste failed"));
}

#[test]
fn icon_lookup() {
    assert_eq!(icon_cache_file_name("com.apple.Safari"), "com.apple.Safari.png");
    assert_eq!(icon_cache_file_name("C:\\Program Files\\App\\app.exe"), "C__Program_Files_App_app.exe.png");
    assert_eq!(icon_cache_file_name("caf\u{e9}-1"), "caf\u{e9}_1.png");
    assert_eq!(
        icon_candidates("/Applications/X.app", Some(" AppIcon\n".to_string())),
        vec![
            "/Applications/X.app/Contents/Resources/AppIcon.icns".to_string(),
            "/Applications/X.app/Contents/Resources/AppIcon.icns".to_string(),
            "/Applications/X.app/Contents/Resources/app.icns".to_string(),
            "/Applications/X.app/Contents/Resources/icon.icns".to_string(),
        ]
    );
    assert_eq!(icon_candidates("/A.app", Some("x.icns".to_string()))[0], "/A.app/Contents/Resources/x.icns");
    assert_eq!(icon_candidates("/A.app", None).len(), 3);
    assert_eq!(info_plist_path("/A.app"), "/A.app/Contents/Info.plist");
    assert_eq!(bundle_query("com.apple.Safari"), "kMDItemCFBundleIdentifier == 'com.apple.Safari'");
    assert_eq!(first_output_line("/Applications/Safari.app\n/Other.app\n"), Some("/Applications/Safari.app".to_string()));
    assert_eq!(first_output_line("a\r\nb"), Some("a".to_string()));
    assert_eq!(first_output_line("abc\r"), Some("abc\r".to_string()));
    assert_eq!(first_output_line("\n"), Some(String::new()));
    assert_eq!(first_output_line(""), None);
}

#[test]
fn powershell_quoting() {
    assert_eq!(ps_quote("it's"), "it''s");
    assert_eq!(ps_quote("''"), "''''");
    assert_eq!(ps_quote("C:\\x.exe"), "C:\\x.exe");
    assert_eq!(
        icon_extract_script("C:\\Bob's\\a.exe", "C:\\cache\\a.png"),
        "Add-Type -AssemblyName System.Drawing; $icon = [System.Drawing.Icon]::ExtractAssociatedIcon('C:\\Bob''s\\a.exe'); \
if ($icon) { $bmp = $icon.ToBitmap(); $bmp.Save('C:\\cache\\a.png', [System.Drawing.Imaging.ImageFormat]::Png); \
$bmp.Dispose(); $icon.Dispose() }"
    );
}

#[test]
fn windows_file_list() {
    assert_eq!(drop_files_data(&[]).unwrap_err(), "no file paths provided");
    let data = drop_files_data(&["C:\\a".to_string(), "\u{1F600}".to_string()]).unwrap();
    let mut expected = vec![20u8, 0, 0, 0, 0, 0, 0, 0, 0, 0, 0, 0, 0, 0, 0, 0, 1, 0, 0, 0];
    expected.extend_from_slice(&[b'C', 0, b':', 0, b'\\', 0, b'a', 0, 0, 0]);
    expected.extend_from_slice(&[0x3D, 0xD8, 0x00, 0xDE, 0, 0]);
    expected.extend_from_slice(&[0, 0]);
    assert_eq!(data, expected);
    let units: Vec<u16> = "C:\\a".encode_utf16().collect();
    assert_eq!(units.len(), 4);
}
