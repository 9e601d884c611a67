//! The data model: clipboard items, settings and sync providers.
use vstd::prelude::*;

verus! {

/// What a clipboard item holds.
#[derive(Debug, Clone, Copy, PartialEq, Eq, Structural)]
pub enum ClipboardItemKind {
    Text,
    Image,
    File,
}

/// How the overlay window is shown.
#[derive(Debug, Clone, Copy, PartialEq, Eq, Structural)]
pub enum UiMode {
    /// Floating UI near the cursor position.
    Floating,
    /// Fixed UI at the bottom of the screen.
    Fixed,
}

impl Default for UiMode {
    fn default() -> (r: UiMode)
        ensures
            r == UiMode::Floating,
    {
        UiMode::Floating
    }
}

/// Where the encrypted sync file lives.
#[derive(Debug, Clone, Copy, PartialEq, Eq, Structural)]
pub enum SyncProvider {
    IcloudDrive,
    OneDrive,
    GoogleDrive,
    CustomFolder,
}

/// A connected cloud account.
#[derive(Debug)]
pub struct ConnectedProviderInfo {
    pub provider: SyncProvider,
    pub account_email: String,
    pub account_id: String,
}

/// One entry of the clipboard history. The id is the 128-bit value of a UUID.
#[derive(Debug)]
pub struct ClipboardItem {
    pub id: u128,
    pub kind: ClipboardItemKind,
    pub text: String,
    pub created_at_ms: i64,
    pub pinned: bool,
    /// Optional pinboard name for user-created pinboards.
    pub pinboard: Option<String>,
    /// For image items: width in pixels.
    pub image_width: Option<u32>,
    /// For image items: height in pixels.
    pub image_height: Option<u32>,
    /// For image items: size in bytes.
    pub image_size_bytes: Option<u64>,
    /// For image items: the MIME type the image was copied as.
    pub image_mime: Option<String>,
    /// For file items: file path(s) separated by newlines.
    pub file_paths: Option<String>,
    /// Content type hint for preview: "url", "image", "file", or none for plain text.
    pub content_type: Option<String>,
    /// Name of the app that was frontmost when this item was copied.
    pub source_app_name: Option<String>,
    /// Bundle ID of the source app.
    pub source_app_bundle_id: Option<String>,
    /// Whether this item is in the trash.
    pub is_trashed: Option<bool>,
    /// When the item was moved to trash (ms since epoch).
    pub deleted_at_ms: Option<i64>,
}

/// Application settings.
#[derive(Debug)]
pub struct Settings {
    pub device_id: String,
    pub sync_enabled: bool,
    pub sync_provider: Option<SyncProvider>,
    pub sync_folder: Option<String>,
    pub sync_salt_b64: Option<String>,
    pub hotkey: String,
    pub theme: String,
    pub ui_mode: UiMode,
    /// Show the app icon in the Dock (macOS).
    pub show_dock_icon: bool,
    /// History retention in days (none = forever).
    pub history_retention_days: Option<i32>,
    /// Whether the trash bin is enabled.
    pub trash_enabled: bool,
    /// Trash retention in days (none = forever).
    pub trash_retention_days: Option<i32>,
    /// Connected providers with account info.
    pub connected_providers: Vec<ConnectedProviderInfo>,
    /// Whether to launch the app on system startup.
    pub launch_at_startup: bool,
}

/// The value `trash_enabled` takes when a stored settings file lacks it.
pub fn default_trash_enabled() -> (r: bool)
    ensures
        r,
{
    true
}

/// The value `trash_retention_days` takes when a stored settings file lacks it.
pub fn default_trash_retention() -> (r: Option<i32>)
    ensures
        r == Some(30i32),
{
    Some(30)
}

/// The views of an optional string.
pub open spec fn opt_view(o: Option<String>) -> Option<Seq<char>> {
    match o {
        Some(s) => Some(s@),
        None => None,
    }
}

pub fn clone_opt_string(o: &Option<String>) -> (r: Option<String>)
    ensures
        r == *o,
{
    match o {
        Some(s) => Some(s.clone()),
        None => None,
    }
}

impl ConnectedProviderInfo {
    pub fn duplicate(&self) -> (r: Self)
        ensures
            r == *self,
    {
        ConnectedProviderInfo {
            provider: self.provider,
            account_email: self.account_email.clone(),
            account_id: self.account_id.clone(),
        }
    }
}

impl ClipboardItem {
    /// A field-by-field copy.
    pub fn duplicate(&self) -> (r: Self)
        ensures
            r == *self,
    {
        ClipboardItem {
            id: self.id,
            kind: self.kind,
            text: self.text.clone(),
            created_at_ms: self.created_at_ms,
            pinned: self.pinned,
            pinboard: clone_opt_string(&self.pinboard),
            image_width: self.image_width,
            image_height: self.image_height,
            image_size_bytes: self.image_size_bytes,
            image_mime: clone_opt_string(&self.image_mime),
            file_paths: clone_opt_string(&self.file_paths),
            content_type: clone_opt_string(&self.content_type),
            source_app_name: clone_opt_string(&self.source_app_name),
            source_app_bundle_id: clone_opt_string(&self.source_app_bundle_id),
            is_trashed: self.is_trashed,
            deleted_at_ms: self.deleted_at_ms,
        }
    }
}

} // verus!
