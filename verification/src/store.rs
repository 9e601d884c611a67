//! The clipboard history store: the SQL statements each operation runs, with their
//! parameters, the mapping from rows to items, and the deduplication decisions.
//! Running a statement against the SQLite file is left to the caller.
use vstd::prelude::*;
use crate::models::{ClipboardItem, ClipboardItemKind, opt_view, clone_opt_string};
use crate::text::{trim_chars, trim, concat, chars_of, string_of_range, contains_seq, contains_str};
use crate::encoding::{uuid_text, uuid_string, lower_hex, push_lower_hex, b64_encode};
use crate::trusted::{
    uuid_parsed, uuid_parse, new_uuid_v4, default_hash_of_bytes, hash_bytes, png_of_rgba,
    png_encode_rgba, image_error_text, b64_standard_encode, system_time_now, since_unix_epoch,
    duration_millis,
};

verus! {

/// The timestamp of a clock reading: its milliseconds since the Unix epoch as an
/// `i64` (`as` conversion), or 0 for a reading before the epoch.
pub open spec fn epoch_millis(d: Option<u128>) -> i64 {
    match d {
        Some(m) => m as i64,
        None => 0,
    }
}

/// The timestamp of a clock reading given as milliseconds since the epoch (none
/// before the epoch).
pub fn millis_or_zero(d: Option<u128>) -> (r: i64)
    ensures
        d is None ==> r == 0,
        d is Some ==> r == d->0 as i64,
{
    match d {
        Some(m) => m as i64,
        None => 0,
    }
}

/// Milliseconds since the Unix epoch by the system clock (0 before the epoch). The
/// result is `millis_or_zero` of the clock reading; which reading, the contract
/// purposely leaves open, so it allows every `i64`.
pub fn now_ms() -> (r: i64)
    ensures
        exists|d: Option<u128>| r == #[trigger] epoch_millis(d),
{
    let t = system_time_now();
    let d = match since_unix_epoch(&t) {
        Some(span) => Some(duration_millis(&span)),
        None => None,
    };
    let r = millis_or_zero(d);
    assert(r == epoch_millis(d));
    r
}

/// A value bound to a statement parameter.
#[derive(Debug)]
pub enum SqlValue {
    Null,
    Integer(i64),
    Text(String),
    Blob(Vec<u8>),
}

/// A statement with its positional parameters `?1`, `?2`, ...
#[derive(Debug)]
pub struct Statement {
    pub sql: &'static str,
    pub params: Vec<SqlValue>,
}

/// The columns of `clipboard_items` that queries read, in this order.
pub const ITEM_COLUMNS: &'static str = "id, kind, text, created_at_ms, pinned, pinboard, image_width, image_height, image_size_bytes, file_paths, content_type, source_app_name, source_app_bundle_id, is_trashed, deleted_at_ms";

pub const FIND_TEXT_SQL: &'static str = "SELECT id, kind, text, created_at_ms, pinned, pinboard, image_width, image_height, image_size_bytes, file_paths, content_type, source_app_name, source_app_bundle_id, is_trashed, deleted_at_ms FROM clipboard_items WHERE (kind = 'text' OR kind = 'file' OR content_type = 'file') AND text = ?1 LIMIT 1";
pub const FIND_IMAGE_SQL: &'static str = "SELECT id, kind, text, created_at_ms, pinned, pinboard, image_width, image_height, image_size_bytes, file_paths, content_type, source_app_name, source_app_bundle_id, is_trashed, deleted_at_ms FROM clipboard_items WHERE kind = 'image' AND text = ?1 LIMIT 1";
pub const LATEST_CREATED_SQL: &'static str = "SELECT created_at_ms FROM clipboard_items ORDER BY created_at_ms DESC LIMIT 1";
pub const BUMP_SQL: &'static str = "UPDATE clipboard_items SET created_at_ms = ?1, is_trashed = NULL, deleted_at_ms = NULL WHERE id = ?2";
pub const INSERT_TEXT_SQL: &'static str = "INSERT INTO clipboard_items (id, kind, text, created_at_ms, pinned, pinboard, content_type, source_app_name, source_app_bundle_id) VALUES (?1, ?2, ?3, ?4, ?5, ?6, ?7, ?8, ?9)";
pub const INSERT_IMAGE_SQL: &'static str = "INSERT INTO clipboard_items (id, kind, text, created_at_ms, pinned, pinboard, image_width, image_height, image_size_bytes, content_type, image_data, source_app_name, source_app_bundle_id) VALUES (?1, ?2, ?3, ?4, ?5, ?6, ?7, ?8, ?9, ?10, ?11, ?12, ?13)";
pub const TOUCH_SQL: &'static str = "UPDATE clipboard_items SET created_at_ms = ?1 WHERE id = ?2 AND is_trashed = 0";
pub const IMAGE_DATA_SQL: &'static str = "SELECT image_data FROM clipboard_items WHERE id = ?1 AND kind = 'image'";
pub const UPSERT_SQL: &'static str = "INSERT OR IGNORE INTO clipboard_items (id, kind, text, created_at_ms, pinned, pinboard) VALUES (?1, ?2, ?3, ?4, ?5, ?6)";
pub const SET_PINNED_SQL: &'static str = "UPDATE clipboard_items SET pinned = ?1 WHERE id = ?2";
pub const SET_PINBOARD_SQL: &'static str = "UPDATE clipboard_items SET pinboard = ?1, pinned = 1 WHERE id = ?2";
pub const LIST_PINBOARDS_SQL: &'static str = "SELECT DISTINCT pinboard FROM clipboard_items WHERE pinboard IS NOT NULL ORDER BY pinboard";
pub const DELETE_SQL: &'static str = "DELETE FROM clipboard_items WHERE id = ?1";
pub const TRASH_SQL: &'static str = "UPDATE clipboard_items SET is_trashed = 1, deleted_at_ms = ?1 WHERE id = ?2";
pub const RESTORE_SQL: &'static str = "UPDATE clipboard_items SET is_trashed = 0, deleted_at_ms = NULL WHERE id = ?1";
pub const EMPTY_TRASH_SQL: &'static str = "DELETE FROM clipboard_items WHERE is_trashed = 1";
pub const TRASH_COUNT_SQL: &'static str = "SELECT COUNT(*) FROM clipboard_items WHERE is_trashed = 1";
pub const LIST_SEARCH_SQL: &'static str = "SELECT id, kind, text, created_at_ms, pinned, pinboard, image_width, image_height, image_size_bytes, file_paths, content_type, source_app_name, source_app_bundle_id, is_trashed, deleted_at_ms FROM clipboard_items WHERE (is_trashed IS NULL OR is_trashed = 0) AND (text LIKE ?1 OR content_type LIKE ?1) ORDER BY pinned DESC, created_at_ms DESC LIMIT ?2";
pub const LIST_ALL_SQL: &'static str = "SELECT id, kind, text, created_at_ms, pinned, pinboard, image_width, image_height, image_size_bytes, file_paths, content_type, source_app_name, source_app_bundle_id, is_trashed, deleted_at_ms FROM clipboard_items WHERE is_trashed IS NULL OR is_trashed = 0 ORDER BY pinned DESC, created_at_ms DESC LIMIT ?1";
pub const LIST_TRASHED_SQL: &'static str = "SELECT id, kind, text, created_at_ms, pinned, pinboard, image_width, image_height, image_size_bytes, file_paths, content_type, source_app_name, source_app_bundle_id, is_trashed, deleted_at_ms FROM clipboard_items WHERE is_trashed = 1 ORDER BY deleted_at_ms DESC LIMIT ?1 OFFSET ?2";
pub const COUNT_SEARCH_SQL: &'static str = "SELECT COUNT(*) FROM clipboard_items WHERE (is_trashed IS NULL OR is_trashed = 0) AND (text LIKE ?1 OR content_type LIKE ?1)";
pub const PAGE_SEARCH_SQL: &'static str = "SELECT id, kind, text, created_at_ms, pinned, pinboard, image_width, image_height, image_size_bytes, file_paths, content_type, source_app_name, source_app_bundle_id, is_trashed, deleted_at_ms FROM clipboard_items WHERE (is_trashed IS NULL OR is_trashed = 0) AND (text LIKE ?1 OR content_type LIKE ?1) ORDER BY pinned DESC, created_at_ms DESC LIMIT ?2 OFFSET ?3";
pub const COUNT_ACTIVE_SQL: &'static str = "SELECT COUNT(*) FROM clipboard_items WHERE is_trashed IS NULL OR is_trashed = 0";
pub const PAGE_ACTIVE_SQL: &'static str = "SELECT id, kind, text, created_at_ms, pinned, pinboard, image_width, image_height, image_size_bytes, file_paths, content_type, source_app_name, source_app_bundle_id, is_trashed, deleted_at_ms FROM clipboard_items WHERE is_trashed IS NULL OR is_trashed = 0 ORDER BY pinned DESC, created_at_ms DESC LIMIT ?1 OFFSET ?2";
pub const COUNT_PINBOARD_SQL: &'static str = "SELECT COUNT(*) FROM clipboard_items WHERE (is_trashed IS NULL OR is_trashed = 0) AND pinboard = ?1";
pub const PAGE_PINBOARD_SQL: &'static str = "SELECT id, kind, text, created_at_ms, pinned, pinboard, image_width, image_height, image_size_bytes, file_paths, content_type, source_app_name, source_app_bundle_id, is_trashed, deleted_at_ms FROM clipboard_items WHERE (is_trashed IS NULL OR is_trashed = 0) AND pinboard = ?1 ORDER BY created_at_ms DESC LIMIT ?2 OFFSET ?3";
pub const COUNT_PINNED_SQL: &'static str = "SELECT COUNT(*) FROM clipboard_items WHERE (is_trashed IS NULL OR is_trashed = 0) AND pinned = 1";
pub const PAGE_PINNED_SQL: &'static str = "SELECT id, kind, text, created_at_ms, pinned, pinboard, image_width, image_height, image_size_bytes, file_paths, content_type, source_app_name, source_app_bundle_id, is_trashed, deleted_at_ms FROM clipboard_items WHERE (is_trashed IS NULL OR is_trashed = 0) AND pinned = 1 ORDER BY created_at_ms DESC LIMIT ?1 OFFSET ?2";
pub const TRASH_OLD_SQL: &'static str = "UPDATE clipboard_items SET is_trashed = 1, deleted_at_ms = ?1 WHERE (is_trashed IS NULL OR is_trashed = 0) AND pinned = 0 AND created_at_ms < ?2";
pub const DELETE_OLD_SQL: &'static str = "DELETE FROM clipboard_items WHERE (is_trashed IS NULL OR is_trashed = 0) AND pinned = 0 AND created_at_ms < ?1";
pub const DELETE_OLD_TRASH_SQL: &'static str = "DELETE FROM clipboard_items WHERE is_trashed = 1 AND deleted_at_ms < ?1";

/// Milliseconds in a day.
pub const DAY_MS: i64 = 86400000;

/// `v` is the text parameter `s`.
pub open spec fn is_text(v: SqlValue, s: Seq<char>) -> bool {
    v matches SqlValue::Text(t) && t@ == s
}

/// `v` is the text parameter `s`, or NULL when there is none.
pub open spec fn is_opt_text(v: SqlValue, s: Option<Seq<char>>) -> bool {
    match s {
        Some(t) => is_text(v, t),
        None => v is Null,
    }
}

fn text_value(s: &str) -> (r: SqlValue)
    ensures
        is_text(r, s@),
{
    SqlValue::Text(String::from_str(s))
}

fn opt_text_value(s: &Option<String>) -> (r: SqlValue)
    ensures
        is_opt_text(r, opt_view(*s)),
{
    match s {
        Some(t) => SqlValue::Text(t.clone()),
        None => SqlValue::Null,
    }
}

fn id_value(id: u128) -> (r: SqlValue)
    ensures
        is_text(r, uuid_text(id)),
{
    SqlValue::Text(uuid_string(id))
}

/// A row of `clipboard_items` as read, column by column (see `ITEM_COLUMNS`).
#[derive(Debug)]
pub struct ItemRow {
    pub id: String,
    pub kind: String,
    pub text: String,
    pub created_at_ms: i64,
    pub pinned: i64,
    pub pinboard: Option<String>,
    pub image_width: Option<i64>,
    pub image_height: Option<i64>,
    pub image_size_bytes: Option<i64>,
    pub file_paths: Option<String>,
    pub content_type: Option<String>,
    pub source_app_name: Option<String>,
    pub source_app_bundle_id: Option<String>,
    pub is_trashed: Option<i64>,
    pub deleted_at_ms: Option<i64>,
}

/// The item kind that the `kind` column names; anything unknown reads as text.
pub open spec fn kind_of(k: Seq<char>) -> ClipboardItemKind {
    if k == "image"@ {
        ClipboardItemKind::Image
    } else if k == "file"@ {
        ClipboardItemKind::File
    } else {
        ClipboardItemKind::Text
    }
}

/// Build an item from a row. An id that does not parse as a UUID is replaced by a
/// fresh random one.
pub fn row_to_item(row: ItemRow) -> (r: ClipboardItem)
    ensures
        uuid_parsed(row.id@) matches Some(v) ==> r.id == v,
        forall|v: u128| #[trigger] uuid_text(v) == row.id@ ==> r.id == v,
        r.kind == kind_of(row.kind@),
        r.text == row.text,
        r.created_at_ms == row.created_at_ms,
        r.pinned == (row.pinned != 0),
        r.pinboard == row.pinboard,
        r.image_width == (match row.image_width {
            Some(v) => Some(v as u32),
            None => None,
        }),
        r.image_height == (match row.image_height {
            Some(v) => Some(v as u32),
            None => None,
        }),
        r.image_size_bytes == (match row.image_size_bytes {
            Some(v) => Some(v as u64),
            None => None,
        }),
        r.image_mime is None,
        r.file_paths == row.file_paths,
        r.content_type == row.content_type,
        r.source_app_name == row.source_app_name,
        r.source_app_bundle_id == row.source_app_bundle_id,
        r.is_trashed == (match row.is_trashed {
            Some(v) => Some(v != 0),
            None => None,
        }),
        r.deleted_at_ms == row.deleted_at_ms,
{
    let id = match uuid_parse(row.id.as_str()) {
        Ok(v) => v,
        Err(_) => new_uuid_v4(),
    };
    let kind = if row.kind == String::from_str("image") {
        ClipboardItemKind::Image
    } else if row.kind == String::from_str("file") {
        ClipboardItemKind::File
    } else {
        ClipboardItemKind::Text
    };
    ClipboardItem {
        id,
        kind,
        text: row.text,
        created_at_ms: row.created_at_ms,
        pinned: row.pinned != 0,
        pinboard: row.pinboard,
        image_width: match row.image_width {
            Some(v) => Some(v as u32),
            None => None,
        },
        image_height: match row.image_height {
            Some(v) => Some(v as u32),
            None => None,
        },
        image_size_bytes: match row.image_size_bytes {
            Some(v) => Some(v as u64),
            None => None,
        },
        image_mime: None,
        file_paths: row.file_paths,
        content_type: row.content_type,
        source_app_name: row.source_app_name,
        source_app_bundle_id: row.source_app_bundle_id,
        is_trashed: match row.is_trashed {
            Some(v) => Some(v != 0),
            None => None,
        },
        deleted_at_ms: row.deleted_at_ms,
    }
}

/// `s` without trailing newline and carriage-return characters.
pub open spec fn strip_trailing_newlines(s: Seq<char>) -> Seq<char>
    decreases s.len(),
{
    if s.len() > 0 && (s.last() == '\n' || s.last() == '\r') {
        strip_trailing_newlines(s.drop_last())
    } else {
        s
    }
}

/// Storing is stable: the text kept for a copied text is kept unchanged when it is
/// copied again, so it finds its own item.
pub proof fn stored_text_is_stable(s: Seq<char>)
    ensures
        strip_trailing_newlines(strip_trailing_newlines(s)) == strip_trailing_newlines(s),
    decreases s.len(),
{
    if s.len() > 0 && (s.last() == '\n' || s.last() == '\r') {
        stored_text_is_stable(s.drop_last());
    }
}

/// The text that is stored for a copied text: without trailing line breaks; none
/// when nothing is left.
pub fn text_to_store(text: &str) -> (r: Option<String>)
    ensures
        r is None <==> strip_trailing_newlines(text@).len() == 0,
        r matches Some(t) ==> t@ == strip_trailing_newlines(text@),
{
    let v = chars_of(text);
    let mut hi = v.len();
    proof {
        assert(v@.take(v@.len() as int) == v@);
    }
    while hi > 0 && (v[hi - 1] == '\n' || v[hi - 1] == '\r')
        invariant
            hi <= v.len(),
            strip_trailing_newlines(v@) == strip_trailing_newlines(v@.take(hi as int)),
        decreases hi,
    {
        proof {
            assert(v@.take(hi as int).drop_last() == v@.take(hi - 1));
        }
        hi = hi - 1;
    }
    if hi == 0 {
        proof {
            assert(v@.take(0) == Seq::<char>::empty());
        }
        return None;
    }
    proof {
        assert(v@.take(hi as int) == v@.subrange(0, hi as int));
    }
    Some(string_of_range(&v, 0, hi))
}

/// What storing a clipboard entry does to the store.
#[derive(Debug)]
pub enum InsertPlan {
    /// The entry is already the most recent item: nothing to do.
    Unchanged,
    /// The entry exists: move it to the top (and out of the trash).
    Bump { item: ClipboardItem, statement: Statement },
    /// The entry is new.
    Insert { item: ClipboardItem, statement: Statement },
}

pub fn find_text_statement(text: &String) -> (r: Statement)
    ensures
        r.sql == FIND_TEXT_SQL,
        r.params@.len() == 1,
        is_text(r.params@[0], text@),
{
    let mut params = Vec::new();
    params.push(text_value(text.as_str()));
    Statement { sql: FIND_TEXT_SQL, params }
}

pub fn find_image_statement(key: &String) -> (r: Statement)
    ensures
        r.sql == FIND_IMAGE_SQL,
        r.params@.len() == 1,
        is_text(r.params@[0], key@),
{
    let mut params = Vec::new();
    params.push(text_value(key.as_str()));
    Statement { sql: FIND_IMAGE_SQL, params }
}

pub fn latest_created_statement() -> (r: Statement)
    ensures
        r.sql == LATEST_CREATED_SQL,
        r.params@.len() == 0,
{
    Statement { sql: LATEST_CREATED_SQL, params: Vec::new() }
}

/// Whether an existing item stays as it is when copied again: it already is the
/// most recent item and it is not in the trash.
pub open spec fn stays_on_top(existing: ClipboardItem, latest: Option<i64>) -> bool {
    latest == Some(existing.created_at_ms) && existing.is_trashed != Some(true)
}

/// The bump of an existing item: unchanged when it already is the most recent item
/// outside the trash; otherwise moved to the top and out of the trash.
pub open spec fn is_bump_of(r: InsertPlan, existing: ClipboardItem, latest: Option<i64>, now: i64) -> bool {
    if stays_on_top(existing, latest) {
        r is Unchanged
    } else {
        &&& r matches InsertPlan::Bump { item, statement }
        &&& item == (ClipboardItem {
            created_at_ms: now,
            is_trashed: None,
            deleted_at_ms: None,
            ..existing
        })
        &&& statement.sql == BUMP_SQL
        &&& statement.params@.len() == 2
        &&& statement.params@[0] == SqlValue::Integer(now)
        &&& is_text(statement.params@[1], uuid_text(existing.id))
    }
}

/// Copying again what an older item holds moves it to the top: when the latest
/// creation time is not the item's own, the plan is a bump that stamps the item
/// with `now` and takes it out of the trash. Nothing is left unchanged unless the
/// item is itself the latest one and not in the trash.
pub proof fn an_older_copy_moves_to_the_top(r: InsertPlan, existing: ClipboardItem, latest: Option<i64>, now: i64)
    requires
        is_bump_of(r, existing, latest, now),
    ensures
        latest != Some(existing.created_at_ms) ==> (r matches InsertPlan::Bump { item, statement }
            && item.created_at_ms == now && item.is_trashed is None && item.id == existing.id
            && item.text == existing.text && statement.sql == BUMP_SQL),
        existing.is_trashed == Some(true) ==> (r matches InsertPlan::Bump { item, .. }
            && item.created_at_ms == now && item.is_trashed is None),
        r is Unchanged ==> latest == Some(existing.created_at_ms) && existing.is_trashed != Some(
            true,
        ),
{
}

/// Move an existing item to the top (and out of the trash) unless it already is the
/// most recent item outside the trash.
pub fn bump_or_keep(existing: ClipboardItem, latest: Option<i64>, now: i64) -> (r: InsertPlan)
    ensures
        is_bump_of(r, existing, latest, now),
{
    let is_latest = match latest {
        Some(t) => t == existing.created_at_ms,
        None => false,
    };
    let trashed = match existing.is_trashed {
        Some(t) => t,
        None => false,
    };
    if is_latest && !trashed {
        return InsertPlan::Unchanged;
    }
    let mut params = Vec::new();
    params.push(SqlValue::Integer(now));
    params.push(id_value(existing.id));
    let mut item = existing;
    item.created_at_ms = now;
    item.is_trashed = None;
    item.deleted_at_ms = None;
    InsertPlan::Bump { item, statement: Statement { sql: BUMP_SQL, params } }
}

/// Storing a text: bump the existing item with the same text if there is one, else
/// insert a new text item with a fresh id. `existing` is what `find_text_statement`
/// found, `latest` what `latest_created_statement` found.
pub fn insert_text_plan(
    text: String,
    existing: Option<ClipboardItem>,
    latest: Option<i64>,
    now: i64,
    content_type: Option<String>,
    source_app_name: Option<String>,
    source_app_bundle_id: Option<String>,
) -> (r: InsertPlan)
    ensures
        existing is Some ==> is_bump_of(r, existing->0, latest, now),
        existing is None ==> {
            &&& r matches InsertPlan::Insert { item, statement }
            &&& item.kind == ClipboardItemKind::Text
            &&& item.text == text
            &&& item.created_at_ms == now
            &&& !item.pinned
            &&& item.pinboard is None
            &&& item.image_width is None && item.image_height is None
            &&& item.image_size_bytes is None && item.image_mime is None
            &&& item.file_paths is None
            &&& item.content_type == content_type
            &&& item.source_app_name == source_app_name
            &&& item.source_app_bundle_id == source_app_bundle_id
            &&& item.is_trashed is None && item.deleted_at_ms is None
            &&& statement.sql == INSERT_TEXT_SQL
            &&& statement.params@.len() == 9
            &&& is_text(statement.params@[0], uuid_text(item.id))
            &&& is_text(statement.params@[1], "text"@)
            &&& is_text(statement.params@[2], text@)
            &&& statement.params@[3] == SqlValue::Integer(now)
            &&& statement.params@[4] == SqlValue::Integer(0)
            &&& statement.params@[5] is Null
            &&& is_opt_text(statement.params@[6], opt_view(content_type))
            &&& is_opt_text(statement.params@[7], opt_view(source_app_name))
            &&& is_opt_text(statement.params@[8], opt_view(source_app_bundle_id))
        },
{
    match existing {
        Some(e) => bump_or_keep(e, latest, now),
        None => {
            let id = new_uuid_v4();
            let mut params = Vec::new();
            params.push(id_value(id));
            params.push(text_value("text"));
            params.push(text_value(text.as_str()));
            params.push(SqlValue::Integer(now));
            params.push(SqlValue::Integer(0));
            params.push(SqlValue::Null);
            params.push(opt_text_value(&content_type));
            params.push(opt_text_value(&source_app_name));
            params.push(opt_text_value(&source_app_bundle_id));
            let item = ClipboardItem {
                id,
                kind: ClipboardItemKind::Text,
                text,
                created_at_ms: now,
                pinned: false,
                pinboard: None,
                image_width: None,
                image_height: None,
                image_size_bytes: None,
                image_mime: None,
                file_paths: None,
                content_type,
                source_app_name,
                source_app_bundle_id,
                is_trashed: None,
                deleted_at_ms: None,
            };
            InsertPlan::Insert { item, statement: Statement { sql: INSERT_TEXT_SQL, params } }
        },
    }
}

/// Number of leading bytes of an image that its deduplication key hashes.
pub const HASH_SAMPLE_BYTES: usize = 1024;

/// The first bytes of an image that its key hashes.
pub open spec fn hash_sample(data: Seq<u8>) -> Seq<u8> {
    if data.len() <= 1024 {
        data
    } else {
        data.take(1024)
    }
}

/// The deduplication key of an image: the hash of its first 1024 pixel bytes, in
/// lowercase hexadecimal. It is stored in the item's text.
pub open spec fn image_key(data: Seq<u8>) -> Seq<char> {
    lower_hex(default_hash_of_bytes(hash_sample(data)) as nat)
}

/// Images whose samples agree (their first 1024 pixel bytes, or all of them when
/// there are fewer) share a key, and so count as the same image.
pub proof fn images_with_same_sample_share_key(a: Seq<u8>, b: Seq<u8>)
    requires
        hash_sample(a) == hash_sample(b),
    ensures
        image_key(a) == image_key(b),
{
}

/// Hash of a byte sample for image deduplication.
pub fn md5_hash(data: &[u8]) -> (r: u64)
    ensures
        r == default_hash_of_bytes(data@),
{
    hash_bytes(data)
}

pub fn image_dedup_key(image_data: &[u8]) -> (r: String)
    ensures
        r@ == image_key(image_data@),
{
    let n = if image_data.len() < HASH_SAMPLE_BYTES {
        image_data.len()
    } else {
        HASH_SAMPLE_BYTES
    };
    let mut sample: Vec<u8> = Vec::new();
    let mut i: usize = 0;
    while i < n
        invariant
            n <= image_data.len(),
            n == (if image_data@.len() <= 1024 { image_data@.len() } else { 1024 }),
            i <= n,
            sample@ == image_data@.take(i as int),
        decreases n - i,
    {
        sample.push(image_data[i]);
        proof {
            assert(image_data@.take(i + 1) == image_data@.take(i as int).push(image_data@[i as int]));
        }
        i = i + 1;
    }
    proof {
        assert(image_data@.take(image_data@.len() as int) == image_data@);
    }
    let h = md5_hash(sample.as_slice());
    let mut out = String::new();
    push_lower_hex(h, &mut out);
    proof {
        assert(Seq::<char>::empty() + lower_hex(h as nat) == lower_hex(h as nat));
    }
    out
}

/// Encode raw RGBA pixels as PNG.
pub fn rgba_to_png(rgba_data: &[u8], width: u32, height: u32) -> (r: Result<Vec<u8>, String>)
    ensures
        rgba_data@.len() < 4 * width * height ==> r is Err && r->Err_0@
            == "failed to create image buffer from RGBA data"@,
        rgba_data@.len() >= 4 * width * height ==> {
            &&& (r is Ok) == (png_of_rgba(width, height, rgba_data@.take(4 * width * height)) is Some)
            &&& r is Ok ==> Some(r->Ok_0@) == png_of_rgba(
                width,
                height,
                rgba_data@.take(4 * width * height),
            )
            &&& r is Err ==> has_prefix_chars(r->Err_0@, "failed to encode PNG: "@)
        },
{
    match png_encode_rgba(rgba_data, width, height) {
        None => Err(String::from_str("failed to create image buffer from RGBA data")),
        Some(Ok(png)) => Ok(png),
        Some(Err(e)) => {
            let m = concat("failed to encode PNG: ", image_error_text(&e).as_str());
            proof {
                assert(m@.take("failed to encode PNG: "@.len() as int) == "failed to encode PNG: "@);
            }
            Err(m)
        },
    }
}

pub open spec fn has_prefix_chars(s: Seq<char>, p: Seq<char>) -> bool {
    crate::text::has_prefix(s, p)
}

/// Storing an image whose key is `key`: bump the existing image item with that key
/// if there is one, else encode the pixels as PNG and insert a new image item.
pub fn insert_image_plan(
    key: String,
    rgba_data: &[u8],
    width: u32,
    height: u32,
    existing: Option<ClipboardItem>,
    latest: Option<i64>,
    now: i64,
    source_app_name: Option<String>,
    source_app_bundle_id: Option<String>,
) -> (r: Result<InsertPlan, String>)
    ensures
        existing is Some ==> r is Ok && is_bump_of(r->Ok_0, existing->0, latest, now),
        existing is None && rgba_data@.len() < 4 * width * height ==> r is Err && r->Err_0@
            == "failed to create image buffer from RGBA data"@,
        existing is None && rgba_data@.len() >= 4 * width * height ==> (r is Ok) == (png_of_rgba(
            width,
            height,
            rgba_data@.take(4 * width * height),
        ) is Some),
        existing is None && r is Ok ==> {
            let png = png_of_rgba(width, height, rgba_data@.take(4 * width * height))->0;
            &&& r->Ok_0 matches InsertPlan::Insert { item, statement }
            &&& item.kind == ClipboardItemKind::Image
            &&& item.text@ == key@
            &&& item.created_at_ms == now
            &&& !item.pinned && item.pinboard is None
            &&& item.image_width == Some(width) && item.image_height == Some(height)
            &&& item.image_size_bytes == Some(png.len() as u64)
            &&& item.image_mime is None && item.file_paths is None
            &&& opt_view(item.content_type) == Some("image"@)
            &&& item.source_app_name == source_app_name
            &&& item.source_app_bundle_id == source_app_bundle_id
            &&& item.is_trashed is None && item.deleted_at_ms is None
            &&& statement.sql == INSERT_IMAGE_SQL
            &&& statement.params@.len() == 13
            &&& is_text(statement.params@[0], uuid_text(item.id))
            &&& is_text(statement.params@[1], "image"@)
            &&& is_text(statement.params@[2], key@)
            &&& statement.params@[3] == SqlValue::Integer(now)
            &&& statement.params@[4] == SqlValue::Integer(0)
            &&& statement.params@[5] is Null
            &&& statement.params@[6] == SqlValue::Integer(width as i64)
            &&& statement.params@[7] == SqlValue::Integer(height as i64)
            &&& statement.params@[8] == SqlValue::Integer(png.len() as i64)
            &&& is_text(statement.params@[9], "image"@)
            &&& statement.params@[10] matches SqlValue::Blob(b) && b@ == png
            &&& is_opt_text(statement.params@[11], opt_view(source_app_name))
            &&& is_opt_text(statement.params@[12], opt_view(source_app_bundle_id))
        },
{
    match existing {
        Some(e) => Ok(bump_or_keep(e, latest, now)),
        None => {
            let png = match rgba_to_png(rgba_data, width, height) {
                Ok(p) => p,
                Err(e) => return Err(e),
            };
            let size_bytes = png.len() as u64;
            let id = new_uuid_v4();
            let mut params = Vec::new();
            params.push(id_value(id));
            params.push(text_value("image"));
            params.push(text_value(key.as_str()));
            params.push(SqlValue::Integer(now));
            params.push(SqlValue::Integer(0));
            params.push(SqlValue::Null);
            params.push(SqlValue::Integer(width as i64));
            params.push(SqlValue::Integer(height as i64));
            params.push(SqlValue::Integer(size_bytes as i64));
            params.push(text_value("image"));
            params.push(SqlValue::Blob(png));
            params.push(opt_text_value(&source_app_name));
            params.push(opt_text_value(&source_app_bundle_id));
            let item = ClipboardItem {
                id,
                kind: ClipboardItemKind::Image,
                text: key,
                created_at_ms: now,
                pinned: false,
                pinboard: None,
                image_width: Some(width),
                image_height: Some(height),
                image_size_bytes: Some(size_bytes),
                image_mime: None,
                file_paths: None,
                content_type: Some(String::from_str("image")),
                source_app_name,
                source_app_bundle_id,
                is_trashed: None,
                deleted_at_ms: None,
            };
            Ok(InsertPlan::Insert { item, statement: Statement { sql: INSERT_IMAGE_SQL, params } })
        },
    }
}

/// Read the PNG bytes of an image item.
pub fn image_data_statement(id: u128) -> (r: Statement)
    ensures
        r.sql == IMAGE_DATA_SQL,
        r.params@.len() == 1,
        is_text(r.params@[0], uuid_text(id)),
{
    let mut params = Vec::new();
    params.push(id_value(id));
    Statement { sql: IMAGE_DATA_SQL, params }
}

/// Delete an item permanently.
pub fn delete_item_statement(id: u128) -> (r: Statement)
    ensures
        r.sql == DELETE_SQL,
        r.params@.len() == 1,
        is_text(r.params@[0], uuid_text(id)),
{
    let mut params = Vec::new();
    params.push(id_value(id));
    Statement { sql: DELETE_SQL, params }
}

/// Delete an item permanently, bypassing the trash.
pub fn delete_item_forever_statement(id: u128) -> (r: Statement)
    ensures
        r.sql == DELETE_SQL,
        r.params@.len() == 1,
        is_text(r.params@[0], uuid_text(id)),
{
    let mut params = Vec::new();
    params.push(id_value(id));
    Statement { sql: DELETE_SQL, params }
}

/// Take an item out of the trash.
pub fn restore_from_trash_statement(id: u128) -> (r: Statement)
    ensures
        r.sql == RESTORE_SQL,
        r.params@.len() == 1,
        is_text(r.params@[0], uuid_text(id)),
{
    let mut params = Vec::new();
    params.push(id_value(id));
    Statement { sql: RESTORE_SQL, params }
}

/// The distinct pinboard names, sorted.
pub fn list_pinboards_statement() -> (r: Statement)
    ensures
        r.sql == LIST_PINBOARDS_SQL,
        r.params@.len() == 0,
{
    Statement { sql: LIST_PINBOARDS_SQL, params: Vec::new() }
}

/// Delete every trashed item.
pub fn empty_trash_statement() -> (r: Statement)
    ensures
        r.sql == EMPTY_TRASH_SQL,
        r.params@.len() == 0,
{
    Statement { sql: EMPTY_TRASH_SQL, params: Vec::new() }
}

/// Count the trashed items.
pub fn trash_count_statement() -> (r: Statement)
    ensures
        r.sql == TRASH_COUNT_SQL,
        r.params@.len() == 0,
{
    Statement { sql: TRASH_COUNT_SQL, params: Vec::new() }
}

/// Move an item whose trash flag is 0 to the top (`touch_item` reports whether a row changed).
pub fn touch_item_statement(id: u128, now: i64) -> (r: Statement)
    ensures
        r.sql == TOUCH_SQL,
        r.params@.len() == 2,
        r.params@[0] == SqlValue::Integer(now),
        is_text(r.params@[1], uuid_text(id)),
{
    let mut params = Vec::new();
    params.push(SqlValue::Integer(now));
    params.push(id_value(id));
    Statement { sql: TOUCH_SQL, params }
}

/// Move an item to the trash, recording when.
pub fn trash_item_statement(id: u128, now: i64) -> (r: Statement)
    ensures
        r.sql == TRASH_SQL,
        r.params@.len() == 2,
        r.params@[0] == SqlValue::Integer(now),
        is_text(r.params@[1], uuid_text(id)),
{
    let mut params = Vec::new();
    params.push(SqlValue::Integer(now));
    params.push(id_value(id));
    Statement { sql: TRASH_SQL, params }
}

/// Pin or unpin an item.
pub fn set_pinned_statement(id: u128, pinned: bool) -> (r: Statement)
    ensures
        r.sql == SET_PINNED_SQL,
        r.params@.len() == 2,
        r.params@[0] == SqlValue::Integer(if pinned { 1 } else { 0 }),
        is_text(r.params@[1], uuid_text(id)),
{
    let mut params = Vec::new();
    params.push(SqlValue::Integer(if pinned { 1 } else { 0 }));
    params.push(id_value(id));
    Statement { sql: SET_PINNED_SQL, params }
}

/// Put an item on a pinboard (none removes it from its pinboard); the item is pinned either way.
pub fn set_pinboard_statement(id: u128, pinboard: Option<String>) -> (r: Statement)
    ensures
        r.sql == SET_PINBOARD_SQL,
        r.params@.len() == 2,
        is_opt_text(r.params@[0], opt_view(pinboard)),
        is_text(r.params@[1], uuid_text(id)),
{
    let mut params = Vec::new();
    params.push(opt_text_value(&pinboard));
    params.push(id_value(id));
    Statement { sql: SET_PINBOARD_SQL, params }
}

/// Insert a synced item unless an item with its id exists; synced items are stored as text.
pub fn upsert_item_statement(item: &ClipboardItem) -> (r: Statement)
    ensures
        r.sql == UPSERT_SQL,
        r.params@.len() == 6,
        is_text(r.params@[0], uuid_text(item.id)),
        is_text(r.params@[1], "text"@),
        is_text(r.params@[2], item.text@),
        r.params@[3] == SqlValue::Integer(item.created_at_ms),
        r.params@[4] == SqlValue::Integer(if item.pinned { 1 } else { 0 }),
        is_opt_text(r.params@[5], opt_view(item.pinboard)),
{
    let mut params = Vec::new();
    params.push(id_value(item.id));
    params.push(text_value("text"));
    params.push(text_value(item.text.as_str()));
    params.push(SqlValue::Integer(item.created_at_ms));
    params.push(SqlValue::Integer(if item.pinned { 1 } else { 0 }));
    params.push(opt_text_value(&item.pinboard));
    Statement { sql: UPSERT_SQL, params }
}

/// `st` is the upsert of `item`: its id text, kind "text", text, creation time,
/// pinned flag and pinboard (what `upsert_item_statement` builds).
pub open spec fn is_upsert_of(st: Statement, item: ClipboardItem) -> bool {
    &&& st.sql == UPSERT_SQL
    &&& st.params@.len() == 6
    &&& is_text(st.params@[0], uuid_text(item.id))
    &&& is_text(st.params@[1], "text"@)
    &&& is_text(st.params@[2], item.text@)
    &&& st.params@[3] == SqlValue::Integer(item.created_at_ms)
    &&& st.params@[4] == SqlValue::Integer(if item.pinned { 1 } else { 0 })
    &&& is_opt_text(st.params@[5], opt_view(item.pinboard))
}

/// The upserts of a list of items, in order; items with distinct ids give upserts
/// of distinct keys.
pub fn upsert_items_statements(items: &Vec<ClipboardItem>) -> (r: Vec<Statement>)
    ensures
        r@.len() == items@.len(),
        forall|i: int| 0 <= i < items@.len() ==> is_upsert_of(#[trigger] r@[i], items@[i]),
        forall|i: int| 0 <= i < items@.len() ==> crate::table::is_upsert(#[trigger] r@[i])
            && crate::table::upsert_key(r@[i]) == uuid_text(items@[i].id),
        (forall|i: int, j: int| 0 <= i < j < items@.len() ==> items@[i].id != items@[j].id)
            ==> crate::table::distinct_keys(r@),
{
    let mut out: Vec<Statement> = Vec::new();
    let mut k: usize = 0;
    while k < items.len()
        invariant
            k <= items.len(),
            out@.len() == k,
            forall|i: int| 0 <= i < k ==> is_upsert_of(#[trigger] out@[i], items@[i]),
        decreases items.len() - k,
    {
        out.push(upsert_item_statement(&items[k]));
        k = k + 1;
    }
    proof {
        assert forall|i: int| 0 <= i < items@.len() implies crate::table::is_upsert(#[trigger] out@[i])
            && crate::table::upsert_key(out@[i]) == uuid_text(items@[i].id) by {
            assert(is_upsert_of(out@[i], items@[i]));
        }
        if forall|i: int, j: int| 0 <= i < j < items@.len() ==> items@[i].id != items@[j].id {
            assert forall|i: int, j: int| 0 <= i < j < out@.len() implies crate::table::upsert_key(
                out@[i],
            ) != crate::table::upsert_key(out@[j]) by {
                assert(is_upsert_of(out@[i], items@[i]));
                assert(is_upsert_of(out@[j], items@[j]));
                if crate::table::upsert_key(out@[i]) == crate::table::upsert_key(out@[j]) {
                    crate::encoding::lemma_uuid_text_injective(items@[i].id, items@[j].id);
                }
            }
        }
    }
    out
}

/// Number of the upserts that inserted a row, given the rows each one changed.
pub open spec fn inserted_count(changed: Seq<usize>) -> nat
    decreases changed.len(),
{
    if changed.len() == 0 {
        0
    } else {
        inserted_count(changed.drop_last()) + if changed.last() > 0 {
            1nat
        } else {
            0nat
        }
    }
}

pub proof fn lemma_inserted_count_bound(changed: Seq<usize>)
    ensures
        inserted_count(changed) <= changed.len(),
    decreases changed.len(),
{
    if changed.len() > 0 {
        lemma_inserted_count_bound(changed.drop_last());
    }
}

/// Count the upserts that inserted a row.
pub fn count_inserted(changed: &Vec<usize>) -> (r: u32)
    requires
        changed.len() <= u32::MAX,
    ensures
        r == inserted_count(changed@),
{
    let mut n: u32 = 0;
    let mut i: usize = 0;
    while i < changed.len()
        invariant
            i <= changed.len() <= u32::MAX,
            n == inserted_count(changed@.take(i as int)),
        decreases changed.len() - i,
    {
        proof {
            assert(changed@.take(i + 1).drop_last() == changed@.take(i as int));
            lemma_inserted_count_bound(changed@.take(i as int));
        }
        if changed[i] > 0 {
            n = n + 1;
        }
        i = i + 1;
    }
    proof {
        assert(changed@.take(changed@.len() as int) == changed@);
    }
    n
}

/// The PNG bytes of an image item as a `data:` URL; none when there are no bytes.
pub fn image_data_url(data: Option<Vec<u8>>) -> (r: Option<String>)
    ensures
        data is None || data->0@.len() == 0 ==> r is None,
        data is Some && data->0@.len() > 0 ==> r is Some && r->0@ == "data:image/png;base64,"@
            + b64_encode(data->0@, false, true),
{
    match data {
        Some(bytes) => {
            if bytes.len() == 0 {
                None
            } else {
                let b64 = b64_standard_encode(bytes.as_slice());
                Some(concat("data:image/png;base64,", b64.as_str()))
            }
        },
        None => None,
    }
}

/// `v` clamped to `[lo, hi]`.
pub open spec fn clamped(v: int, lo: int, hi: int) -> int {
    if v < lo {
        lo
    } else if v > hi {
        hi
    } else {
        v
    }
}

pub fn clamp_u32(v: u32, lo: u32, hi: u32) -> (r: u32)
    requires
        lo <= hi,
    ensures
        r == clamped(v as int, lo as int, hi as int),
{
    if v < lo {
        lo
    } else if v > hi {
        hi
    } else {
        v
    }
}

/// A search text that filters: present and not blank.
pub open spec fn active_query(q: Option<String>) -> bool {
    q is Some && trim_chars(q->0@).len() > 0
}

/// The LIKE pattern of a search: the trimmed text between `%` wildcards.
pub open spec fn like_pattern(q: Seq<char>) -> Seq<char> {
    seq!['%'] + trim_chars(q) + seq!['%']
}

fn like_value(q: &String) -> (r: SqlValue)
    ensures
        is_text(r, like_pattern(q@)),
{
    let t = trim(q.as_str());
    let a = concat("%", t.as_str());
    let p = concat(a.as_str(), "%");
    proof {
        reveal_strlit("%");
        assert(p@ =~= like_pattern(q@));
    }
    SqlValue::Text(p)
}

fn query_is_active(q: &Option<String>) -> (r: bool)
    ensures
        r == active_query(*q),
{
    match q {
        Some(s) => !trim(s.as_str()).as_str().is_empty(),
        None => false,
    }
}

/// The history, newest first with pinned items on top, at most `limit` (clamped to
/// 1..=5000) items, filtered by a non-blank search text.
pub fn list_items_statement(limit: u32, query: Option<String>) -> (r: Statement)
    ensures
        active_query(query) ==> {
            &&& r.sql == LIST_SEARCH_SQL
            &&& r.params@.len() == 2
            &&& is_text(r.params@[0], like_pattern(query->0@))
            &&& r.params@[1] == SqlValue::Integer(clamped(limit as int, 1, 5000) as i64)
        },
        !active_query(query) ==> {
            &&& r.sql == LIST_ALL_SQL
            &&& r.params@.len() == 1
            &&& r.params@[0] == SqlValue::Integer(clamped(limit as int, 1, 5000) as i64)
        },
{
    let limit = clamp_u32(limit, 1, 5000) as i64;
    let mut params = Vec::new();
    if query_is_active(&query) {
        let q = query.unwrap();
        params.push(like_value(&q));
        params.push(SqlValue::Integer(limit));
        Statement { sql: LIST_SEARCH_SQL, params }
    } else {
        params.push(SqlValue::Integer(limit));
        Statement { sql: LIST_ALL_SQL, params }
    }
}

/// A page: the statement counting all matching items, and the one reading the page.
#[derive(Debug)]
pub struct PageQuery {
    pub count: Statement,
    pub page: Statement,
}

/// A page of the trash, most recently trashed first; `limit` is clamped to 1..=100.
pub fn list_trashed_items_query(limit: u32, offset: u32) -> (r: PageQuery)
    ensures
        r.count.sql == TRASH_COUNT_SQL,
        r.count.params@.len() == 0,
        r.page.sql == LIST_TRASHED_SQL,
        r.page.params@ == seq![
            SqlValue::Integer(clamped(limit as int, 1, 100) as i64),
            SqlValue::Integer(offset as i64),
        ],
{
    let limit = clamp_u32(limit, 1, 100) as i64;
    let mut params = Vec::new();
    params.push(SqlValue::Integer(limit));
    params.push(SqlValue::Integer(offset as i64));
    PageQuery { count: trash_count_statement(), page: Statement { sql: LIST_TRASHED_SQL, params } }
}

/// A page of the history (trash excluded), pinned first then newest first, filtered
/// by a non-blank search text; `limit` is clamped to 1..=100.
pub fn list_items_paginated_query(limit: u32, offset: u32, query: Option<String>) -> (r: PageQuery)
    ensures
        active_query(query) ==> {
            &&& r.count.sql == COUNT_SEARCH_SQL
            &&& r.count.params@.len() == 1
            &&& is_text(r.count.params@[0], like_pattern(query->0@))
            &&& r.page.sql == PAGE_SEARCH_SQL
            &&& r.page.params@.len() == 3
            &&& is_text(r.page.params@[0], like_pattern(query->0@))
            &&& r.page.params@[1] == SqlValue::Integer(clamped(limit as int, 1, 100) as i64)
            &&& r.page.params@[2] == SqlValue::Integer(offset as i64)
        },
        !active_query(query) ==> {
            &&& r.count.sql == COUNT_ACTIVE_SQL
            &&& r.count.params@.len() == 0
            &&& r.page.sql == PAGE_ACTIVE_SQL
            &&& r.page.params@ == seq![
                SqlValue::Integer(clamped(limit as int, 1, 100) as i64),
                SqlValue::Integer(offset as i64),
            ]
        },
{
    let limit = clamp_u32(limit, 1, 100) as i64;
    let offset = offset as i64;
    if query_is_active(&query) {
        let q = query.unwrap();
        let mut cp = Vec::new();
        cp.push(like_value(&q));
        let mut pp = Vec::new();
        pp.push(like_value(&q));
        pp.push(SqlValue::Integer(limit));
        pp.push(SqlValue::Integer(offset));
        PageQuery {
            count: Statement { sql: COUNT_SEARCH_SQL, params: cp },
            page: Statement { sql: PAGE_SEARCH_SQL, params: pp },
        }
    } else {
        let mut pp = Vec::new();
        pp.push(SqlValue::Integer(limit));
        pp.push(SqlValue::Integer(offset));
        PageQuery {
            count: Statement { sql: COUNT_ACTIVE_SQL, params: Vec::new() },
            page: Statement { sql: PAGE_ACTIVE_SQL, params: pp },
        }
    }
}

/// A page of one pinboard (a non-blank name), or of all pinned items, newest first;
/// `limit` is clamped to 1..=100.
pub fn list_pinboard_items_paginated_query(limit: u32, offset: u32, pinboard: Option<String>) -> (r:
    PageQuery)
    ensures
        active_query(pinboard) ==> {
            &&& r.count.sql == COUNT_PINBOARD_SQL
            &&& r.count.params@.len() == 1
            &&& is_text(r.count.params@[0], pinboard->0@)
            &&& r.page.sql == PAGE_PINBOARD_SQL
            &&& r.page.params@.len() == 3
            &&& is_text(r.page.params@[0], pinboard->0@)
            &&& r.page.params@[1] == SqlValue::Integer(clamped(limit as int, 1, 100) as i64)
            &&& r.page.params@[2] == SqlValue::Integer(offset as i64)
        },
        !active_query(pinboard) ==> {
            &&& r.count.sql == COUNT_PINNED_SQL
            &&& r.count.params@.len() == 0
            &&& r.page.sql == PAGE_PINNED_SQL
            &&& r.page.params@ == seq![
                SqlValue::Integer(clamped(limit as int, 1, 100) as i64),
                SqlValue::Integer(offset as i64),
            ]
        },
{
    let limit = clamp_u32(limit, 1, 100) as i64;
    let offset = offset as i64;
    if query_is_active(&pinboard) {
        let pb = pinboard.unwrap();
        let mut cp = Vec::new();
        cp.push(text_value(pb.as_str()));
        let mut pp = Vec::new();
        pp.push(text_value(pb.as_str()));
        pp.push(SqlValue::Integer(limit));
        pp.push(SqlValue::Integer(offset));
        PageQuery {
            count: Statement { sql: COUNT_PINBOARD_SQL, params: cp },
            page: Statement { sql: PAGE_PINBOARD_SQL, params: pp },
        }
    } else {
        let mut pp = Vec::new();
        pp.push(SqlValue::Integer(limit));
        pp.push(SqlValue::Integer(offset));
        PageQuery {
            count: Statement { sql: COUNT_PINNED_SQL, params: Vec::new() },
            page: Statement { sql: PAGE_PINNED_SQL, params: pp },
        }
    }
}

/// The instant before which items fall out of a retention period of `days` days.
pub open spec fn cutoff(now: i64, days: i32) -> int {
    now - days * 86400000
}

/// Whether the cutoff fits in an `i64` (its `i64` arithmetic overflows otherwise).
pub open spec fn cutoff_fits(now: i64, days: i32) -> bool {
    i64::MIN <= cutoff(now, days) <= i64::MAX
}

pub fn retention_cutoff(now: i64, days: i32) -> (r: i64)
    requires
        cutoff_fits(now, days),
    ensures
        r == cutoff(now, days),
{
    let span: i64 = (days as i64) * DAY_MS;
    now - span
}

/// Clean up unpinned, untrashed items created before the retention cutoff: move them
/// to the trash (stamped `now`) when the trash is enabled, else delete them.
pub fn cleanup_old_items_statement(retention_days: i32, trash_enabled: bool, now: i64) -> (r:
    Statement)
    requires
        cutoff_fits(now, retention_days),
    ensures
        trash_enabled ==> r.sql == TRASH_OLD_SQL && r.params@ == seq![
            SqlValue::Integer(now),
            SqlValue::Integer(cutoff(now, retention_days) as i64),
        ],
        !trash_enabled ==> r.sql == DELETE_OLD_SQL && r.params@ == seq![
            SqlValue::Integer(cutoff(now, retention_days) as i64),
        ],
{
    let c = retention_cutoff(now, retention_days);
    let mut params = Vec::new();
    if trash_enabled {
        params.push(SqlValue::Integer(now));
        params.push(SqlValue::Integer(c));
        proof {
            assert(params@ =~= seq![SqlValue::Integer(now), SqlValue::Integer(c)]);
        }
        Statement { sql: TRASH_OLD_SQL, params }
    } else {
        params.push(SqlValue::Integer(c));
        proof {
            assert(params@ =~= seq![SqlValue::Integer(c)]);
        }
        Statement { sql: DELETE_OLD_SQL, params }
    }
}

/// Delete trashed items that were trashed before the trash retention cutoff.
pub fn cleanup_old_trash_statement(trash_retention_days: i32, now: i64) -> (r: Statement)
    requires
        cutoff_fits(now, trash_retention_days),
    ensures
        r.sql == DELETE_OLD_TRASH_SQL,
        r.params@ == seq![SqlValue::Integer(cutoff(now, trash_retention_days) as i64)],
{
    let c = retention_cutoff(now, trash_retention_days);
    let mut params = Vec::new();
    params.push(SqlValue::Integer(c));
    proof {
        assert(params@ =~= seq![SqlValue::Integer(c)]);
    }
    Statement { sql: DELETE_OLD_TRASH_SQL, params }
}

/// What applying a migration's batch gives: success, or a failure of its batch; a
/// failure because a column exists already counts as applied (a manual or partial
/// earlier run added it).
pub fn migration_outcome(name: &str, batch_error: Option<String>) -> (r: Result<(), String>)
    ensures
        batch_error is None ==> r is Ok,
        batch_error is Some && contains_seq(batch_error->0@, "duplicate column name"@) ==> r is Ok,
        batch_error is Some && !contains_seq(batch_error->0@, "duplicate column name"@) ==> r is Err
            && r->Err_0@ == "failed to apply migration "@ + name@ + ": "@ + batch_error->0@,
{
    match batch_error {
        None => Ok(()),
        Some(e) => {
            if contains_str(e.as_str(), "duplicate column name") {
                Ok(())
            } else {
                let a = concat("failed to apply migration ", name);
                let b = concat(a.as_str(), ": ");
                Err(concat(b.as_str(), e.as_str()))
            }
        },
    }
}

} // verus!
