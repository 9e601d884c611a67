//! Settings rules: defaults, normalisation after loading, validated setters and
//! the sync salt.
use vstd::prelude::*;
use crate::models::{Settings, SyncProvider, UiMode, ConnectedProviderInfo, default_trash_enabled,
    default_trash_retention};
use crate::text::{trim_chars, trim};
use crate::encoding::b64_encode;
use crate::trusted::{b64_url_nopad_encode, b64_standard_encode, fill_random};

verus! {

/// The default overlay shortcut on macOS (and wherever no other is documented).
pub const DEFAULT_HOTKEY: &'static str = "Command+Shift+V";
/// The default overlay shortcut on Windows.
pub const WINDOWS_DEFAULT_HOTKEY: &'static str = "Ctrl+Shift+V";
pub const DEFAULT_THEME: &'static str = "system";

/// The operating system the app runs on, as far as its defaults depend on it.
#[derive(Debug, Clone, Copy, PartialEq, Eq, Structural)]
pub enum HostOs {
    MacOs,
    Windows,
    Other,
}

/// The default overlay shortcut of an operating system: Ctrl+Shift+V on Windows,
/// Command+Shift+V elsewhere.
pub open spec fn default_hotkey_of(os: HostOs) -> Seq<char> {
    match os {
        HostOs::Windows => WINDOWS_DEFAULT_HOTKEY@,
        _ => DEFAULT_HOTKEY@,
    }
}

/// The default overlay shortcut on `os`.
pub fn default_hotkey(os: HostOs) -> (r: String)
    ensures
        r@ == default_hotkey_of(os),
        trim_chars(r@) == r@,
        r@.len() > 0,
{
    proof {
        reveal_strlit("Command+Shift+V");
        reveal_strlit("Ctrl+Shift+V");
        assert(trim_chars(DEFAULT_HOTKEY@) == DEFAULT_HOTKEY@);
        assert(trim_chars(WINDOWS_DEFAULT_HOTKEY@) == WINDOWS_DEFAULT_HOTKEY@);
    }
    match os {
        HostOs::Windows => String::from_str(WINDOWS_DEFAULT_HOTKEY),
        _ => String::from_str(DEFAULT_HOTKEY),
    }
}

/// A device id: the unpadded URL-safe base64 of 16 bytes.
pub open spec fn is_device_id_of(id: Seq<char>, bytes: Seq<u8>) -> bool {
    bytes.len() == 16 && id == b64_encode(bytes, true, false)
}

pub proof fn lemma_b64_nonempty(b: Seq<u8>, url_safe: bool, pad: bool)
    requires
        b.len() > 0,
    ensures
        b64_encode(b, url_safe, pad).len() > 0,
{
}

/// The device id made from 16 bytes.
pub fn device_id_from_bytes(bytes: &[u8; 16]) -> (r: String)
    ensures
        is_device_id_of(r@, bytes@),
        r@.len() > 0,
{
    proof {
        lemma_b64_nonempty(bytes@, true, false);
    }
    b64_url_nopad_encode(bytes.as_slice())
}

/// A random, stable per-install identifier.
pub fn new_device_id() -> (r: String)
    ensures
        exists|b: Seq<u8>| #[trigger] is_device_id_of(r@, b),
        r@.len() > 0,
{
    let mut bytes = [0u8; 16];
    fill_random(&mut bytes);
    device_id_from_bytes(&bytes)
}

/// Settings after loading: a device id, a hotkey and a theme that are not blank.
pub open spec fn is_normalized(s: Settings) -> bool {
    &&& s.device_id@.len() > 0
    &&& trim_chars(s.hotkey@).len() > 0
    &&& trim_chars(s.theme@).len() > 0
}

/// The settings of a fresh install on `os`: a device id of 16 random bytes, sync off
/// with no provider, folder or salt, the default shortcut, the "system" theme, the
/// floating overlay, no Dock icon, history kept forever, the trash on with 30 days'
/// retention, no connected accounts, no launch at startup.
pub open spec fn is_fresh(r: Settings, os: HostOs) -> bool {
    &&& exists|b: Seq<u8>| #[trigger] is_device_id_of(r.device_id@, b)
    &&& !r.sync_enabled
    &&& r.sync_provider is None
    &&& r.sync_folder is None
    &&& r.sync_salt_b64 is None
    &&& r.hotkey@ == default_hotkey_of(os)
    &&& r.theme@ == DEFAULT_THEME@
    &&& r.ui_mode == UiMode::Floating
    &&& !r.show_dock_icon
    &&& r.history_retention_days is None
    &&& r.trash_enabled
    &&& r.trash_retention_days == Some(30i32)
    &&& r.connected_providers@.len() == 0
    &&& !r.launch_at_startup
}

/// The settings of a fresh install on `os` (the serde defaults for the optional fields).
pub fn fresh_settings(os: HostOs) -> (r: Settings)
    ensures
        is_fresh(r, os),
        is_normalized(r),
{
    let s = Settings {
        device_id: new_device_id(),
        sync_enabled: false,
        sync_provider: None,
        sync_folder: None,
        sync_salt_b64: None,
        hotkey: default_hotkey(os),
        theme: String::from_str(DEFAULT_THEME),
        ui_mode: UiMode::Floating,
        show_dock_icon: false,
        history_retention_days: None,
        trash_enabled: default_trash_enabled(),
        trash_retention_days: default_trash_retention(),
        connected_providers: Vec::new(),
        launch_at_startup: false,
    };
    proof {
        let b = choose|b: Seq<u8>| is_device_id_of(s.device_id@, b);
        assert(is_device_id_of(s.device_id@, b));
        reveal_strlit("system");
        assert(trim_chars(s.hotkey@) == s.hotkey@);
        assert(trim_chars(s.theme@) == s.theme@);
    }
    s
}

/// Fill in what a stored settings file left blank: a new device id when it has
/// none, and the default hotkey of `os` and the default theme when they are blank.
pub fn normalize_loaded(loaded: Settings, os: HostOs) -> (r: Settings)
    ensures
        old_device_id_kept(loaded, r),
        r.hotkey@ == (if trim_chars(loaded.hotkey@).len() == 0 {
            default_hotkey_of(os)
        } else {
            loaded.hotkey@
        }),
        r.theme@ == (if trim_chars(loaded.theme@).len() == 0 {
            DEFAULT_THEME@
        } else {
            loaded.theme@
        }),
        same_except_normalized(loaded, r),
        is_normalized(r),
        is_normalized(loaded) ==> r == loaded,
{
    let mut s = loaded;
    if s.device_id.as_str().is_empty() {
        s.device_id = new_device_id();
    }
    if trim(s.hotkey.as_str()).as_str().is_empty() {
        s.hotkey = default_hotkey(os);
    }
    if trim(s.theme.as_str()).as_str().is_empty() {
        s.theme = String::from_str(DEFAULT_THEME);
    }
    proof {
        reveal_strlit("system");
        assert(trim_chars(DEFAULT_THEME@) == DEFAULT_THEME@);
        if loaded.device_id@.len() == 0 {
            let b = choose|b: Seq<u8>| is_device_id_of(s.device_id@, b);
            assert(is_device_id_of(s.device_id@, b));
        }
    }
    s
}

/// The device id is kept when present, else replaced by a fresh one.
pub open spec fn old_device_id_kept(old: Settings, new: Settings) -> bool {
    if old.device_id@.len() > 0 {
        new.device_id == old.device_id
    } else {
        exists|b: Seq<u8>| #[trigger] is_device_id_of(new.device_id@, b)
    }
}

/// All fields but the device id, hotkey and theme are unchanged.
pub open spec fn same_except_normalized(old: Settings, new: Settings) -> bool {
    &&& new.sync_enabled == old.sync_enabled
    &&& new.sync_provider == old.sync_provider
    &&& new.sync_folder == old.sync_folder
    &&& new.sync_salt_b64 == old.sync_salt_b64
    &&& new.ui_mode == old.ui_mode
    &&& new.show_dock_icon == old.show_dock_icon
    &&& new.history_retention_days == old.history_retention_days
    &&& new.trash_enabled == old.trash_enabled
    &&& new.trash_retention_days == old.trash_retention_days
    &&& new.connected_providers == old.connected_providers
    &&& new.launch_at_startup == old.launch_at_startup
}

/// The settings the app runs with on `os`, given what the settings file held (none
/// when there was no readable file): the stored settings normalised, or fresh ones.
pub fn load_or_init_settings(stored: Option<Settings>, os: HostOs) -> (r: Settings)
    ensures
        is_normalized(r),
        stored is None ==> is_fresh(r, os),
        stored is Some ==> r.hotkey@ == (if trim_chars(stored->0.hotkey@).len() == 0 {
            default_hotkey_of(os)
        } else {
            stored->0.hotkey@
        }) && r.theme@ == (if trim_chars(stored->0.theme@).len() == 0 {
            DEFAULT_THEME@
        } else {
            stored->0.theme@
        }),
        stored is Some ==> old_device_id_kept(stored->0, r) && same_except_normalized(
            stored->0,
            r,
        ),
        stored is Some && is_normalized(stored->0) ==> r == stored->0,
{
    match stored {
        Some(s) => normalize_loaded(s, os),
        None => fresh_settings(os),
    }
}

/// Set the theme to the trimmed name; a blank name is refused.
pub fn set_theme(settings: Settings, theme: String) -> (r: Result<Settings, String>)
    ensures
        trim_chars(theme@).len() == 0 <==> r is Err,
        r matches Err(m) ==> m@ == "theme cannot be empty"@,
        r matches Ok(s) ==> s.theme@ == trim_chars(theme@) && s == (Settings {
            theme: s.theme,
            ..settings
        }),
{
    let t = trim(theme.as_str());
    if t.as_str().is_empty() {
        return Err(String::from_str("theme cannot be empty"));
    }
    let mut s = settings;
    s.theme = t;
    Ok(s)
}

/// Set the hotkey to the trimmed accelerator; a blank one is refused.
pub fn set_hotkey(settings: Settings, hotkey: String) -> (r: Result<Settings, String>)
    ensures
        trim_chars(hotkey@).len() == 0 <==> r is Err,
        r matches Err(m) ==> m@ == "hotkey cannot be empty"@,
        r matches Ok(s) ==> s.hotkey@ == trim_chars(hotkey@) && s == (Settings {
            hotkey: s.hotkey,
            ..settings
        }),
{
    let t = trim(hotkey.as_str());
    if t.as_str().is_empty() {
        return Err(String::from_str("hotkey cannot be empty"));
    }
    let mut s = settings;
    s.hotkey = t;
    Ok(s)
}

pub fn set_ui_mode(settings: Settings, ui_mode: UiMode) -> (r: Settings)
    ensures
        r == (Settings { ui_mode, ..settings }),
{
    let mut s = settings;
    s.ui_mode = ui_mode;
    s
}

pub fn set_show_dock_icon(settings: Settings, show: bool) -> (r: Settings)
    ensures
        r == (Settings { show_dock_icon: show, ..settings }),
{
    let mut s = settings;
    s.show_dock_icon = show;
    s
}

pub fn set_launch_at_startup(settings: Settings, enabled: bool) -> (r: Settings)
    ensures
        r == (Settings { launch_at_startup: enabled, ..settings }),
{
    let mut s = settings;
    s.launch_at_startup = enabled;
    s
}

pub fn set_history_retention(settings: Settings, days: Option<i32>) -> (r: Settings)
    ensures
        r == (Settings { history_retention_days: days, ..settings }),
{
    let mut s = settings;
    s.history_retention_days = days;
    s
}

pub fn set_trash_enabled(settings: Settings, enabled: bool) -> (r: Settings)
    ensures
        r == (Settings { trash_enabled: enabled, ..settings }),
{
    let mut s = settings;
    s.trash_enabled = enabled;
    s
}

pub fn set_trash_retention(settings: Settings, days: Option<i32>) -> (r: Settings)
    ensures
        r == (Settings { trash_retention_days: days, ..settings }),
{
    let mut s = settings;
    s.trash_retention_days = days;
    s
}

pub fn set_sync_config(
    settings: Settings,
    enabled: bool,
    provider: Option<SyncProvider>,
    folder: Option<String>,
) -> (r: Settings)
    ensures
        r == (Settings {
            sync_enabled: enabled,
            sync_provider: provider,
            sync_folder: folder,
            ..settings
        }),
{
    let mut s = settings;
    s.sync_enabled = enabled;
    s.sync_provider = provider;
    s.sync_folder = folder;
    s
}

/// Give the settings a sync salt if they have none: 16 random bytes, base64.
pub fn ensure_sync_salt_b64(settings: Settings) -> (r: Settings)
    ensures
        settings.sync_salt_b64 is Some ==> r == settings,
        settings.sync_salt_b64 is None ==> r.sync_salt_b64 is Some && (exists|b: Seq<u8>|
            b.len() == 16 && #[trigger] b64_encode(b, false, true) == r.sync_salt_b64->0@)
            && r == (Settings { sync_salt_b64: r.sync_salt_b64, ..settings }),
{
    if settings.sync_salt_b64.is_some() {
        return settings;
    }
    let mut salt = [0u8; 16];
    fill_random(&mut salt);
    let mut s = settings;
    let enc = b64_standard_encode(salt.as_slice());
    proof {
        assert(b64_encode(salt@, false, true) == enc@);
    }
    s.sync_salt_b64 = Some(enc);
    s
}

/// Record a connected account, replacing any earlier entry for the same provider.
pub fn add_connected_provider(settings: Settings, info: ConnectedProviderInfo) -> (r: Settings)
    ensures
        r.connected_providers@ == settings.connected_providers@.filter(
            |c: ConnectedProviderInfo| c.provider != info.provider,
        ).push(info),
        r == (Settings { connected_providers: r.connected_providers, ..settings }),
{
    let p = info.provider;
    let mut s = remove_connected_provider(settings, p);
    s.connected_providers.push(info);
    s
}

/// Forget the connected account of a provider.
pub fn remove_connected_provider(settings: Settings, provider: SyncProvider) -> (r: Settings)
    ensures
        r.connected_providers@ == settings.connected_providers@.filter(
            |c: ConnectedProviderInfo| c.provider != provider,
        ),
        r == (Settings { connected_providers: r.connected_providers, ..settings }),
{
    let mut s = settings;
    let mut rest: Vec<ConnectedProviderInfo> = Vec::new();
    std::mem::swap(&mut rest, &mut s.connected_providers);
    let ghost og = rest@;
    let mut rev: Vec<ConnectedProviderInfo> = Vec::new();
    proof {
        assert(og =~= rest@ + rev@.reverse());
    }
    while rest.len() > 0
        invariant
            og == rest@ + rev@.reverse(),
        decreases rest.len(),
    {
        let x = rest.pop().unwrap();
        rev.push(x);
        proof {
            assert(og =~= rest@ + rev@.reverse());
        }
    }
    let mut kept: Vec<ConnectedProviderInfo> = Vec::new();
    proof {
        assert(og =~= rev@.reverse());
        assert(og.take(0) =~= Seq::<ConnectedProviderInfo>::empty());
        reveal_with_fuel(Seq::filter, 1);
    }
    while rev.len() > 0
        invariant
            rev@.len() <= og.len(),
            rev@.reverse() == og.skip(og.len() - rev@.len()),
            kept@ == og.take(og.len() - rev@.len()).filter(
                |c: ConnectedProviderInfo| c.provider != provider,
            ),
        decreases rev.len(),
    {
        let ghost k = og.len() - rev@.len();
        let ghost rv = rev@;
        let x = rev.pop().unwrap();
        proof {
            assert(rev@ == rv.drop_last());
            assert(rv.reverse() == og.skip(k));
            assert forall|j: int| 0 <= j < rev@.len() implies #[trigger] rev@.reverse()[j] == og.skip(k + 1)[j] by {
                assert(rev@.reverse()[j] == rev@[rev@.len() - 1 - j]);
                assert(rv.reverse()[j + 1] == rv[rv.len() - 1 - (j + 1)]);
            }
            assert(og.skip(k)[0] == x);
            assert(og[k] == x);
            assert(og.take(k + 1).drop_last() =~= og.take(k));
            assert(og.take(k + 1).last() == x);
            assert(rev@.reverse() =~= og.skip(k + 1));
            reveal_with_fuel(Seq::filter, 1);
        }
        if x.provider != provider {
            kept.push(x);
        }
    }
    proof {
        assert(og.take(og.len() as int) =~= og);
    }
    s.connected_providers = kept;
    s
}

} // verus!
