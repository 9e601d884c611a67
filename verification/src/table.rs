//! A model of the `clipboard_items` table and of what the history's write
//! statements do to it, with the laws that relate them: upserting is idempotent,
//! trashing then restoring gives the row back, and emptying the trash deletes
//! exactly the trashed rows.
use vstd::prelude::*;
use crate::models::{ClipboardItem, opt_view};
use crate::encoding::uuid_text;
use crate::store::{is_upsert_of, 
    SqlValue, Statement, UPSERT_SQL, TRASH_SQL, RESTORE_SQL, TOUCH_SQL, EMPTY_TRASH_SQL, BUMP_SQL,
    TRASH_COUNT_SQL, LIST_ALL_SQL, PAGE_ACTIVE_SQL, COUNT_ACTIVE_SQL,
};

verus! {

/// A row of `clipboard_items`, column by column (the schema after all migrations).
pub struct Row {
    pub kind: Seq<char>,
    pub text: Seq<char>,
    pub created_at_ms: int,
    pub pinned: int,
    pub pin_category: Option<Seq<char>>,
    pub image_width: Option<int>,
    pub image_height: Option<int>,
    pub image_size_bytes: Option<int>,
    pub file_paths: Option<Seq<char>>,
    pub content_type: Option<Seq<char>>,
    pub image_data: Option<Seq<u8>>,
    pub source_app_name: Option<Seq<char>>,
    pub source_app_bundle_id: Option<Seq<char>>,
    pub is_trashed: Option<int>,
    pub deleted_at_ms: Option<int>,
    pub pinboard: Option<Seq<char>>,
    pub image_mime: Option<Seq<char>>,
}

/// The table: rows by their `id` text.
pub type Table = Map<Seq<char>, Row>;

/// A row in the trash (`is_trashed = 1`).
pub open spec fn trashed(r: Row) -> bool {
    r.is_trashed == Some(1int)
}

/// A row that the history lists (`is_trashed IS NULL OR is_trashed = 0`).
pub open spec fn active(r: Row) -> bool {
    r.is_trashed is None || r.is_trashed == Some(0int)
}

pub open spec fn text_arg(v: SqlValue) -> Seq<char> {
    match v {
        SqlValue::Text(t) => t@,
        _ => Seq::empty(),
    }
}

pub open spec fn int_arg(v: SqlValue) -> int {
    match v {
        SqlValue::Integer(i) => i as int,
        _ => 0,
    }
}

pub open spec fn opt_text_arg(v: SqlValue) -> Option<Seq<char>> {
    match v {
        SqlValue::Text(t) => Some(t@),
        _ => None,
    }
}

/// The row that `UPSERT_SQL` inserts: the columns it names, the others at their
/// defaults (NULL, and 0 for `is_trashed`).
pub open spec fn upserted_row(p: Seq<SqlValue>) -> Row {
    Row {
        kind: text_arg(p[1]),
        text: text_arg(p[2]),
        created_at_ms: int_arg(p[3]),
        pinned: int_arg(p[4]),
        pin_category: None,
        image_width: None,
        image_height: None,
        image_size_bytes: None,
        file_paths: None,
        content_type: None,
        image_data: None,
        source_app_name: None,
        source_app_bundle_id: None,
        is_trashed: Some(0int),
        deleted_at_ms: None,
        pinboard: opt_text_arg(p[5]),
        image_mime: None,
    }
}

/// The ids of the trashed rows.
pub open spec fn trashed_ids(t: Table) -> Set<Seq<char>> {
    t.dom().filter(|k: Seq<char>| trashed(t[k]))
}

/// What `TRASH_COUNT_SQL` counts.
pub open spec fn trash_count(t: Table) -> nat {
    trashed_ids(t).len()
}

/// What a write statement of the model does to the table, with the number of rows
/// it changes; none for a statement outside the model.
pub open spec fn write_effect(t: Table, st: Statement) -> Option<(Table, nat)> {
    let p = st.params@;
    if st.sql == UPSERT_SQL {
        let id = text_arg(p[0]);
        if t.contains_key(id) {
            Some((t, 0))
        } else {
            Some((t.insert(id, upserted_row(p)), 1))
        }
    } else if st.sql == TRASH_SQL {
        let id = text_arg(p[1]);
        if t.contains_key(id) {
            Some((t.insert(id, Row { is_trashed: Some(1int), deleted_at_ms: Some(int_arg(p[0])), ..t[id] }), 1))
        } else {
            Some((t, 0))
        }
    } else if st.sql == RESTORE_SQL {
        let id = text_arg(p[0]);
        if t.contains_key(id) {
            Some((t.insert(id, Row { is_trashed: Some(0int), deleted_at_ms: None, ..t[id] }), 1))
        } else {
            Some((t, 0))
        }
    } else if st.sql == TOUCH_SQL {
        let id = text_arg(p[1]);
        if t.contains_key(id) && t[id].is_trashed == Some(0int) {
            Some((t.insert(id, Row { created_at_ms: int_arg(p[0]), ..t[id] }), 1))
        } else {
            Some((t, 0))
        }
    } else if st.sql == BUMP_SQL {
        let id = text_arg(p[1]);
        if t.contains_key(id) {
            Some((t.insert(id, Row { created_at_ms: int_arg(p[0]), is_trashed: None, deleted_at_ms: None, ..t[id] }), 1))
        } else {
            Some((t, 0))
        }
    } else if st.sql == EMPTY_TRASH_SQL {
        Some((t.remove_keys(trashed_ids(t)), trash_count(t)))
    } else {
        None
    }
}

/// The ids of the rows that the history lists.
pub open spec fn active_ids(t: Table) -> Set<Seq<char>> {
    t.dom().filter(|k: Seq<char>| active(t[k]))
}

/// What a counting query of the model answers; none for one outside the model.
pub open spec fn count_answer(t: Table, st: Statement) -> Option<nat> {
    if st.sql == TRASH_COUNT_SQL {
        Some(trash_count(t))
    } else if st.sql == COUNT_ACTIVE_SQL {
        Some(active_ids(t).len())
    } else {
        None
    }
}

/// `ORDER BY pinned DESC, created_at_ms DESC`: `a` may come before `b`.
pub open spec fn comes_before(a: Row, b: Row) -> bool {
    a.pinned > b.pinned || (a.pinned == b.pinned && a.created_at_ms >= b.created_at_ms)
}

/// `all` lists every row of the history once, pinned rows first, newest first.
pub open spec fn is_history_order(t: Table, all: Seq<Seq<char>>) -> bool {
    &&& all.no_duplicates()
    &&& forall|k: Seq<char>| #[trigger] all.contains(k) <==> t.contains_key(k) && active(t[k])
    &&& forall|i: int, j: int| 0 <= i < j < all.len() ==> comes_before(t[all[i]], t[all[j]])
}

/// `LIMIT limit OFFSET offset` on an ordered list (a negative limit means none).
pub open spec fn window(all: Seq<Seq<char>>, offset: int, limit: int) -> Seq<Seq<char>> {
    let lo = if offset < 0 {
        0
    } else if offset > all.len() {
        all.len() as int
    } else {
        offset
    };
    let hi = if limit < 0 || lo + limit > all.len() {
        all.len() as int
    } else {
        lo + limit
    };
    all.subrange(lo, hi)
}

/// The (limit, offset) of a history listing statement of the model.
pub open spec fn history_page(st: Statement) -> Option<(int, int)> {
    if st.sql == LIST_ALL_SQL && st.params@.len() == 1 {
        Some((int_arg(st.params@[0]), 0))
    } else if st.sql == PAGE_ACTIVE_SQL && st.params@.len() == 2 {
        Some((int_arg(st.params@[0]), int_arg(st.params@[1])))
    } else {
        None
    }
}

/// The limit of a history listing statement.
pub open spec fn page_limit(st: Statement) -> int {
    match history_page(st) {
        Some((limit, _)) => limit,
        None => 0,
    }
}

/// The offset of a history listing statement.
pub open spec fn page_offset(st: Statement) -> int {
    match history_page(st) {
        Some((_, offset)) => offset,
        None => 0,
    }
}

/// `ids` is an answer that the history listing `st` may give on `t` (rows that tie in
/// the order may come either way).
pub open spec fn history_answer(t: Table, st: Statement, ids: Seq<Seq<char>>) -> bool {
    match history_page(st) {
        Some((limit, offset)) => exists|all: Seq<Seq<char>>|
            #[trigger] is_history_order(t, all) && ids == window(all, offset, limit),
        None => false,
    }
}

proof fn lemma_listing_statements_distinct()
    ensures
        LIST_ALL_SQL != PAGE_ACTIVE_SQL,
        TRASH_COUNT_SQL != COUNT_ACTIVE_SQL,
{
    reveal_strlit("SELECT id, kind, text, created_at_ms, pinned, pinboard, image_width, image_height, image_size_bytes, file_paths, content_type, source_app_name, source_app_bundle_id, is_trashed, deleted_at_ms FROM clipboard_items WHERE is_trashed IS NULL OR is_trashed = 0 ORDER BY pinned DESC, created_at_ms DESC LIMIT ?1");
    reveal_strlit("SELECT id, kind, text, created_at_ms, pinned, pinboard, image_width, image_height, image_size_bytes, file_paths, content_type, source_app_name, source_app_bundle_id, is_trashed, deleted_at_ms FROM clipboard_items WHERE is_trashed IS NULL OR is_trashed = 0 ORDER BY pinned DESC, created_at_ms DESC LIMIT ?1 OFFSET ?2");
    reveal_strlit("SELECT COUNT(*) FROM clipboard_items WHERE is_trashed IS NULL OR is_trashed = 0");
    reveal_strlit("SELECT COUNT(*) FROM clipboard_items WHERE is_trashed = 1");
    assert(LIST_ALL_SQL@.len() == 305);
    assert(PAGE_ACTIVE_SQL@.len() == 315);
    assert(COUNT_ACTIVE_SQL@.len() == 79);
    assert(TRASH_COUNT_SQL@.len() == 57);
}

/// A history listing holds only untrashed rows, each once, pinned rows first and
/// newest first, at most `limit` of them; a first page with fewer rows than the
/// limit holds every untrashed row.
pub proof fn history_lists_untrashed_rows_in_order(t: Table, st: Statement, ids: Seq<Seq<char>>)
    requires
        history_answer(t, st, ids),
    ensures
        history_page(st) is Some,
        ids.no_duplicates(),
        forall|i: int| 0 <= i < ids.len() ==> t.contains_key(#[trigger] ids[i]) && active(t[ids[i]]),
        forall|i: int, j: int| 0 <= i < j < ids.len() ==> comes_before(t[ids[i]], t[ids[j]]),
        page_limit(st) >= 0 ==> ids.len() <= page_limit(st),
        page_offset(st) == 0 && 0 <= page_limit(st) && ids.len() < page_limit(st)
            ==> forall|k: Seq<char>| t.contains_key(k) && active(t[k]) ==> #[trigger] ids.contains(k),
{
    lemma_listing_statements_distinct();
    let (limit, offset) = history_page(st)->0;
    let all = choose|all: Seq<Seq<char>>| #[trigger] is_history_order(t, all) && ids == window(all, offset, limit);
    let lo = if offset < 0 {
        0
    } else if offset > all.len() {
        all.len() as int
    } else {
        offset
    };
    assert forall|i: int| 0 <= i < ids.len() implies t.contains_key(#[trigger] ids[i]) && active(t[ids[i]]) by {
        assert(ids[i] == all[lo + i]);
        assert(all.contains(all[lo + i]));
    }
    assert forall|i: int, j: int| 0 <= i < j < ids.len() implies comes_before(t[ids[i]], t[ids[j]]) by {
        assert(ids[i] == all[lo + i] && ids[j] == all[lo + j]);
    }
    assert forall|i: int, j: int| 0 <= i < j < ids.len() implies ids[i] != ids[j] by {
        assert(ids[i] == all[lo + i] && ids[j] == all[lo + j]);
    }
    if offset == 0 && 0 <= limit && ids.len() < limit {
        assert(ids == all);
        assert forall|k: Seq<char>| t.contains_key(k) && active(t[k]) implies #[trigger] ids.contains(k) by {
            assert(all.contains(k));
        }
    }
}

/// A row moved to the trash is in no history listing.
pub proof fn trashed_rows_leave_the_history(t: Table, id: Seq<char>, trash: Statement, st: Statement, ids: Seq<Seq<char>>)
    requires
        t.contains_key(id),
        is_trash_of(trash, id),
        history_answer(table_of(write_effect(t, trash)), st, ids),
    ensures
        !ids.contains(id),
{
    lemma_statements_distinct();
    let t1 = table_of(write_effect(t, trash));
    assert(trashed(t1[id]));
    history_lists_untrashed_rows_in_order(t1, st, ids);
    if ids.contains(id) {
        let i = choose|i: int| 0 <= i < ids.len() && ids[i] == id;
        assert(active(t1[ids[i]]));
    }
}

/// A row trashed and then restored is listed again: a first page with fewer rows
/// than its limit holds it.
pub proof fn restored_rows_return_to_the_history(
    t: Table,
    id: Seq<char>,
    trash: Statement,
    restore: Statement,
    st: Statement,
    ids: Seq<Seq<char>>,
)
    requires
        t.contains_key(id),
        is_trash_of(trash, id),
        is_restore_of(restore, id),
        history_answer(table_of(write_effect(table_of(write_effect(t, trash)), restore)), st, ids),
        page_offset(st) == 0,
        0 <= page_limit(st),
        ids.len() < page_limit(st),
    ensures
        ids.contains(id),
{
    trash_then_restore_gives_the_row_back(t, id, trash, restore);
    let t2 = table_of(write_effect(table_of(write_effect(t, trash)), restore));
    history_lists_untrashed_rows_in_order(t2, st, ids);
    assert(t2.contains_key(id) && active(t2[id]));
}


/// The model's statements are told apart by their text.
pub proof fn lemma_statements_distinct()
    ensures
        UPSERT_SQL != TRASH_SQL,
        UPSERT_SQL != RESTORE_SQL,
        UPSERT_SQL != TOUCH_SQL,
        UPSERT_SQL != BUMP_SQL,
        UPSERT_SQL != EMPTY_TRASH_SQL,
        TRASH_SQL != RESTORE_SQL,
        TRASH_SQL != TOUCH_SQL,
        TRASH_SQL != BUMP_SQL,
        TRASH_SQL != EMPTY_TRASH_SQL,
        RESTORE_SQL != TOUCH_SQL,
        RESTORE_SQL != BUMP_SQL,
        RESTORE_SQL != EMPTY_TRASH_SQL,
        TOUCH_SQL != BUMP_SQL,
        TOUCH_SQL != EMPTY_TRASH_SQL,
        BUMP_SQL != EMPTY_TRASH_SQL,
{
    reveal_strlit("INSERT OR IGNORE INTO clipboard_items (id, kind, text, created_at_ms, pinned, pinboard) VALUES (?1, ?2, ?3, ?4, ?5, ?6)");
    reveal_strlit("UPDATE clipboard_items SET is_trashed = 1, deleted_at_ms = ?1 WHERE id = ?2");
    reveal_strlit("UPDATE clipboard_items SET is_trashed = 0, deleted_at_ms = NULL WHERE id = ?1");
    reveal_strlit("UPDATE clipboard_items SET created_at_ms = ?1 WHERE id = ?2 AND is_trashed = 0");
    reveal_strlit("DELETE FROM clipboard_items WHERE is_trashed = 1");
    reveal_strlit("UPDATE clipboard_items SET created_at_ms = ?1, is_trashed = NULL, deleted_at_ms = NULL WHERE id = ?2");
    reveal_strlit("SELECT COUNT(*) FROM clipboard_items WHERE is_trashed = 1");
    assert(UPSERT_SQL@.len() == 119);
    assert(TRASH_SQL@.len() == 75);
    assert(RESTORE_SQL@.len() == 77);
    assert(TOUCH_SQL@.len() == 78);
    assert(EMPTY_TRASH_SQL@.len() == 48);
    assert(BUMP_SQL@.len() == 100);
    assert(TRASH_COUNT_SQL@.len() == 57);
}

/// The table that running statements leaves.
pub open spec fn table_of(o: Option<(Table, nat)>) -> Table {
    match o {
        Some((tb, _)) => tb,
        None => Map::empty(),
    }
}

/// The number of rows that running statements changed.
pub open spec fn changed_of(o: Option<(Table, nat)>) -> nat {
    match o {
        Some((_, n)) => n,
        None => 0,
    }
}

/// `st` is an upsert of one row (as `upsert_item_statement` builds it).
pub open spec fn is_upsert(st: Statement) -> bool {
    st.sql == UPSERT_SQL && st.params@.len() == 6
}

/// The id that an upsert names.
pub open spec fn upsert_key(st: Statement) -> Seq<char> {
    text_arg(st.params@[0])
}

/// The ids that a run of upserts names, in order.
pub open spec fn upsert_keys(sts: Seq<Statement>) -> Seq<Seq<char>> {
    sts.map_values(|st: Statement| upsert_key(st))
}

/// Run write statements in order: the final table and the rows changed in all.
pub open spec fn run_all(t: Table, sts: Seq<Statement>) -> Option<(Table, nat)>
    decreases sts.len(),
{
    if sts.len() == 0 {
        Some((t, 0))
    } else {
        match run_all(t, sts.drop_last()) {
            Some((t1, n1)) => match write_effect(t1, sts.last()) {
                Some((t2, n2)) => Some((t2, n1 + n2)),
                None => None,
            },
            None => None,
        }
    }
}

/// How many of the upserts name an id that `t` lacks.
pub open spec fn absent_count(t: Table, sts: Seq<Statement>) -> nat
    decreases sts.len(),
{
    if sts.len() == 0 {
        0
    } else {
        absent_count(t, sts.drop_last()) + if t.contains_key(upsert_key(sts.last())) {
            0nat
        } else {
            1nat
        }
    }
}

/// No two of the upserts name the same id.
pub open spec fn distinct_keys(sts: Seq<Statement>) -> bool {
    forall|i: int, j: int| 0 <= i < j < sts.len() ==> upsert_key(sts[i]) != upsert_key(sts[j])
}

proof fn lemma_upsert_run(t: Table, sts: Seq<Statement>)
    requires
        forall|i: int| 0 <= i < sts.len() ==> is_upsert(#[trigger] sts[i]),
    ensures
        run_all(t, sts) is Some,
        forall|k: Seq<char>| #[trigger] t.contains_key(k) ==> table_of(run_all(t, sts)).contains_key(k)
            && table_of(run_all(t, sts))[k] == t[k],
        forall|k: Seq<char>| #[trigger] table_of(run_all(t, sts)).contains_key(k) ==> t.contains_key(k)
            || upsert_keys(sts).contains(k),
        forall|i: int| 0 <= i < sts.len() ==> table_of(run_all(t, sts)).contains_key(
            #[trigger] upsert_key(sts[i]),
        ),
        distinct_keys(sts) ==> changed_of(run_all(t, sts)) == absent_count(t, sts),
        distinct_keys(sts) ==> forall|i: int|
            0 <= i < sts.len() && !t.contains_key(#[trigger] upsert_key(sts[i])) ==> table_of(
                run_all(t, sts),
            )[upsert_key(sts[i])] == upserted_row(sts[i].params@),
    decreases sts.len(),
{
    if sts.len() > 0 {
        let pre = sts.drop_last();
        let st = sts.last();
        assert forall|i: int| 0 <= i < pre.len() implies is_upsert(#[trigger] pre[i]) by {
            assert(pre[i] == sts[i]);
        }
        lemma_upsert_run(t, pre);
        assert(is_upsert(st));
        let ta = table_of(run_all(t, pre));
        let na = changed_of(run_all(t, pre));
        let k = upsert_key(st);
        assert(run_all(t, pre) == Some((ta, na)));
        if ta.contains_key(k) {
            assert(write_effect(ta, st) == Some((ta, 0nat)));
            assert(run_all(t, sts) == Some((ta, na)));
        } else {
            assert(write_effect(ta, st) == Some((ta.insert(k, upserted_row(st.params@)), 1nat)));
            assert(run_all(t, sts) == Some((ta.insert(k, upserted_row(st.params@)), na + 1)));
        }
        assert(upsert_keys(sts) =~= upsert_keys(pre).push(k));
        assert forall|j: Seq<char>| #[trigger] upsert_keys(pre).contains(j) implies upsert_keys(
            sts,
        ).contains(j) by {
            let w = choose|w: int| 0 <= w < upsert_keys(pre).len() && upsert_keys(pre)[w] == j;
            assert(upsert_keys(sts)[w] == j);
        }
        assert(upsert_keys(sts)[sts.len() - 1] == k);
        assert forall|i: int| 0 <= i < sts.len() implies table_of(run_all(t, sts)).contains_key(
            #[trigger] upsert_key(sts[i]),
        ) by {
            if i < sts.len() - 1 {
                assert(sts[i] == pre[i]);
            }
        }
        if distinct_keys(sts) {
            assert forall|i: int, j: int| 0 <= i < j < pre.len() implies upsert_key(pre[i])
                != upsert_key(pre[j]) by {
                assert(pre[i] == sts[i] && pre[j] == sts[j]);
            }
            if ta.contains_key(k) && !t.contains_key(k) {
                assert(upsert_keys(pre).contains(k));
                let w = choose|w: int| 0 <= w < upsert_keys(pre).len() && upsert_keys(pre)[w] == k;
                assert(upsert_keys(pre)[w] == upsert_key(pre[w]));
                assert(pre[w] == sts[w]);
                assert(upsert_key(sts[w]) == upsert_key(sts[sts.len() - 1]));
                assert(false);
            }
            assert(ta.contains_key(k) <==> t.contains_key(k));
            let tb = table_of(run_all(t, sts));
            assert forall|i: int|
                0 <= i < sts.len() && !t.contains_key(#[trigger] upsert_key(sts[i])) implies tb[upsert_key(
                    sts[i],
                )] == upserted_row(sts[i].params@) by {
                if i < sts.len() - 1 {
                    assert(sts[i] == pre[i]);
                    assert(upsert_key(sts[i]) != k);
                }
            }
            assert(absent_count(t, sts) == absent_count(t, pre) + if t.contains_key(k) {
                0nat
            } else {
                1nat
            });
        }
    }
}

proof fn lemma_upserts_of_present_keys(t: Table, sts: Seq<Statement>)
    requires
        forall|i: int| 0 <= i < sts.len() ==> is_upsert(#[trigger] sts[i]),
        forall|i: int| 0 <= i < sts.len() ==> t.contains_key(#[trigger] upsert_key(sts[i])),
    ensures
        run_all(t, sts) == Some((t, 0nat)),
    decreases sts.len(),
{
    if sts.len() > 0 {
        let pre = sts.drop_last();
        assert forall|i: int| 0 <= i < pre.len() implies is_upsert(#[trigger] pre[i]) by {
            assert(pre[i] == sts[i]);
        }
        assert forall|i: int| 0 <= i < pre.len() implies t.contains_key(#[trigger] upsert_key(pre[i])) by {
            assert(pre[i] == sts[i]);
        }
        lemma_upserts_of_present_keys(t, pre);
        assert(is_upsert(sts[sts.len() - 1]));
        assert(t.contains_key(upsert_key(sts[sts.len() - 1])));
    }
}

/// Upserting is idempotent. Running upserts keeps every existing row as it was,
/// stores a row for every id they name, and, when the ids are distinct, changes
/// exactly as many rows as there were absent ids; running the same upserts again
/// changes nothing and reports no row changed.
pub proof fn upserts_are_idempotent(t: Table, sts: Seq<Statement>)
    requires
        forall|i: int| 0 <= i < sts.len() ==> is_upsert(#[trigger] sts[i]),
    ensures
        run_all(t, sts) is Some,
        run_all(table_of(run_all(t, sts)), sts) == Some((table_of(run_all(t, sts)), 0nat)),
        forall|k: Seq<char>| #[trigger] t.contains_key(k) ==> table_of(run_all(t, sts)).contains_key(k)
            && table_of(run_all(t, sts))[k] == t[k],
        forall|i: int| 0 <= i < sts.len() ==> table_of(run_all(t, sts)).contains_key(
            #[trigger] upsert_key(sts[i]),
        ),
        distinct_keys(sts) ==> changed_of(run_all(t, sts)) == absent_count(t, sts),
{
    lemma_upsert_run(t, sts);
    lemma_upserts_of_present_keys(table_of(run_all(t, sts)), sts);
}

/// `st` moves the row `id` to the trash (as `trash_item_statement` builds it).
pub open spec fn is_trash_of(st: Statement, id: Seq<char>) -> bool {
    st.sql == TRASH_SQL && st.params@.len() == 2 && text_arg(st.params@[1]) == id
}

/// `st` restores the row `id` from the trash (as `restore_from_trash_statement` builds it).
pub open spec fn is_restore_of(st: Statement, id: Seq<char>) -> bool {
    st.sql == RESTORE_SQL && st.params@.len() == 1 && text_arg(st.params@[0]) == id
}

/// Trashing a row and then restoring it gives the row back, listed again: every
/// column is as before but for `is_trashed`, now 0, and `deleted_at_ms`, now NULL.
/// Each statement changes that one row.
pub proof fn trash_then_restore_gives_the_row_back(t: Table, id: Seq<char>, trash: Statement, restore: Statement)
    requires
        t.contains_key(id),
        is_trash_of(trash, id),
        is_restore_of(restore, id),
    ensures
        write_effect(t, trash) is Some,
        changed_of(write_effect(t, trash)) == 1,
        trashed(table_of(write_effect(t, trash))[id]),
        write_effect(table_of(write_effect(t, trash)), restore) == Some((
            t.insert(id, Row { is_trashed: Some(0int), deleted_at_ms: None, ..t[id] }),
            1nat,
        )),
        active(Row { is_trashed: Some(0int), deleted_at_ms: None, ..t[id] }),
{
    lemma_statements_distinct();
    let t1 = table_of(write_effect(t, trash));
    assert(t1.contains_key(id));
    let back = t.insert(id, Row { is_trashed: Some(0int), deleted_at_ms: None, ..t[id] });
    assert(table_of(write_effect(t1, restore)) =~= back);
}

/// Emptying the trash deletes exactly the trashed rows: it reports as many rows as
/// the trash count gave before, the count is 0 afterwards, and every other row is
/// kept as it was.
pub proof fn emptying_the_trash_deletes_the_trashed_rows(t: Table, empty: Statement, count: Statement)
    requires
        empty.sql == EMPTY_TRASH_SQL,
        count.sql == TRASH_COUNT_SQL,
    ensures
        write_effect(t, empty) is Some,
        count_answer(t, count) == Some(changed_of(write_effect(t, empty))),
        count_answer(table_of(write_effect(t, empty)), count) == Some(0nat),
        forall|k: Seq<char>| t.contains_key(k) && !trashed(t[k]) ==> table_of(write_effect(t, empty)).contains_key(k)
            && table_of(write_effect(t, empty))[k] == t[k],
        forall|k: Seq<char>| #[trigger] table_of(write_effect(t, empty)).contains_key(k) ==> t.contains_key(k)
            && !trashed(t[k]),
{
    lemma_statements_distinct();
    let t2 = table_of(write_effect(t, empty));
    assert(t2 =~= t.remove_keys(trashed_ids(t)));
    assert(trashed_ids(t2) =~= Set::<Seq<char>>::empty());
}

/// `st` moves the row `id` to the top at `now` (as `touch_item_statement` builds it).
pub open spec fn is_touch_of(st: Statement, id: Seq<char>, now: int) -> bool {
    st.sql == TOUCH_SQL && st.params@.len() == 2 && int_arg(st.params@[0]) == now && text_arg(
        st.params@[1],
    ) == id
}

/// Touching changes a row exactly when it exists and its trash flag is 0 (a row
/// whose flag is NULL, as a bump leaves it, is not touched); then only its creation
/// time changes, to `now`.
pub proof fn touch_moves_rows_flagged_untrashed(t: Table, st: Statement, id: Seq<char>, now: int)
    requires
        is_touch_of(st, id, now),
    ensures
        write_effect(t, st) is Some,
        changed_of(write_effect(t, st)) == 1 <==> t.contains_key(id) && t[id].is_trashed == Some(0int),
        t.contains_key(id) && t[id].is_trashed == Some(0int) ==> table_of(write_effect(t, st)) == t.insert(
            id,
            Row { created_at_ms: now, ..t[id] },
        ),
        !(t.contains_key(id) && t[id].is_trashed == Some(0int)) ==> table_of(write_effect(t, st)) == t,
{
    lemma_statements_distinct();
}

/// A table is finite, and the write statements keep it so: the database starts
/// empty and every table the app reads is reached by such writes.
pub proof fn writes_keep_tables_finite(t: Table, st: Statement)
    requires
        t.dom().finite(),
        write_effect(t, st) is Some,
    ensures
        table_of(write_effect(t, st)).dom().finite(),
{
    lemma_statements_distinct();
    if st.sql == EMPTY_TRASH_SQL {
        assert(table_of(write_effect(t, st)).dom() =~= t.dom().difference(trashed_ids(t)));
    }
}

/// The row that upserting `item` stores: kind "text" whatever the item's kind, its
/// text, creation time, pinned flag and pinboard, the other columns at their defaults.
pub open spec fn item_row(item: ClipboardItem) -> Row {
    Row {
        kind: "text"@,
        text: item.text@,
        created_at_ms: item.created_at_ms as int,
        pinned: if item.pinned { 1int } else { 0int },
        pin_category: None,
        image_width: None,
        image_height: None,
        image_size_bytes: None,
        file_paths: None,
        content_type: None,
        image_data: None,
        source_app_name: None,
        source_app_bundle_id: None,
        is_trashed: Some(0int),
        deleted_at_ms: None,
        pinboard: opt_view(item.pinboard),
        image_mime: None,
    }
}

/// Upserting items with distinct ids (as `upsert_items_statements` builds the
/// statements) stores a row for each item whose id the table lacks, as
/// `item_row` says, keeps every existing row as it was, and changes exactly as many
/// rows as there were such items; upserting the same items again changes nothing.
pub proof fn upserting_items_is_idempotent(t: Table, items: Seq<ClipboardItem>, sts: Seq<Statement>)
    requires
        sts.len() == items.len(),
        forall|i: int| 0 <= i < sts.len() ==> is_upsert_of(#[trigger] sts[i], items[i]),
        forall|i: int, j: int| 0 <= i < j < items.len() ==> items[i].id != items[j].id,
    ensures
        run_all(t, sts) is Some,
        changed_of(run_all(t, sts)) == absent_count(t, sts),
        run_all(table_of(run_all(t, sts)), sts) == Some((table_of(run_all(t, sts)), 0nat)),
        forall|k: Seq<char>| #[trigger] t.contains_key(k) ==> table_of(run_all(t, sts)).contains_key(k)
            && table_of(run_all(t, sts))[k] == t[k],
        forall|i: int| 0 <= i < items.len() && !t.contains_key(#[trigger] uuid_text(items[i].id))
            ==> table_of(run_all(t, sts))[uuid_text(items[i].id)] == item_row(items[i]),
{
    assert forall|i: int| 0 <= i < sts.len() implies is_upsert(#[trigger] sts[i]) && upsert_key(sts[i])
        == uuid_text(items[i].id) by {
        assert(is_upsert_of(sts[i], items[i]));
    }
    assert forall|i: int, j: int| 0 <= i < j < sts.len() implies upsert_key(sts[i]) != upsert_key(
        sts[j],
    ) by {
        assert(is_upsert_of(sts[i], items[i]));
        assert(is_upsert_of(sts[j], items[j]));
        if upsert_key(sts[i]) == upsert_key(sts[j]) {
            crate::encoding::lemma_uuid_text_injective(items[i].id, items[j].id);
        }
    }
    lemma_upsert_run(t, sts);
    lemma_upserts_of_present_keys(table_of(run_all(t, sts)), sts);
    assert forall|i: int| 0 <= i < items.len() && !t.contains_key(#[trigger] uuid_text(items[i].id))
        implies table_of(run_all(t, sts))[uuid_text(items[i].id)] == item_row(items[i]) by {
        assert(is_upsert_of(sts[i], items[i]));
        assert(upsert_key(sts[i]) == uuid_text(items[i].id));
        let p = sts[i].params@;
        reveal_strlit("text");
        assert(upserted_row(p) == item_row(items[i]));
    }
}

} // verus!
