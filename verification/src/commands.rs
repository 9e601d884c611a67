//! The decisions behind the app's commands: overlay sizing, id parsing, the paste
//! plan of an item, pinboard names, deletion and listing choices, and sync settings.
use vstd::prelude::*;
use crate::models::{ClipboardItem, ClipboardItemKind, Settings, SyncProvider, UiMode,
    ConnectedProviderInfo, opt_view};
use crate::text::{trim_chars, trim, concat, chars_of, char_is_white_space, trim_end_index,
    trim_start_index, string_of_range};
use crate::encoding::uuid_text;
use crate::trusted::{uuid_parsed, uuid_parse, uuid_error_text};
use crate::store::{Statement, PageQuery, trash_item_statement, delete_item_statement,
    list_trashed_items_query, list_items_paginated_query, TRASH_SQL, DELETE_SQL, is_text, active_query};
use crate::settings::{set_theme, set_sync_config, ensure_sync_salt_b64};
use crate::encoding::b64_encode;

verus! {

/// Width of the floating overlay, in pixels.
pub const FLOATING_WIDTH_PX: u32 = 320;
/// Largest height of the floating overlay, in pixels.
pub const FLOATING_MAX_HEIGHT_PX: u32 = 480;

/// Overlay size for a monitor: floating mode is 320 px wide and half the monitor
/// high (rounded, at most 480 px); fixed mode is a strip 99% of the monitor wide and
/// 23% high (rounded half up). For every `u32` size these equal the `f64` products
/// `height * 0.5`, `width * 0.99` and `height * 0.23` rounded to the nearest integer.
pub open spec fn overlay_size(monitor_width: u32, monitor_height: u32, ui_mode: UiMode) -> (u32, u32) {
    match ui_mode {
        UiMode::Floating => {
            let h = (monitor_height + 1) / 2;
            (320, if h < 480 { h as u32 } else { 480 })
        },
        UiMode::Fixed => (
            ((monitor_width * 99 + 50) / 100) as u32,
            ((monitor_height * 23 + 50) / 100) as u32,
        ),
    }
}

pub fn overlay_size_for_monitor(monitor_width: u32, monitor_height: u32, ui_mode: UiMode) -> (r: (
    u32,
    u32,
))
    ensures
        r == overlay_size(monitor_width, monitor_height, ui_mode),
{
    match ui_mode {
        UiMode::Floating => {
            let h: u64 = (monitor_height as u64 + 1) / 2;
            let h: u32 = if h < FLOATING_MAX_HEIGHT_PX as u64 {
                h as u32
            } else {
                FLOATING_MAX_HEIGHT_PX
            };
            (FLOATING_WIDTH_PX, h)
        },
        UiMode::Fixed => {
            let w: u64 = (monitor_width as u64 * 99 + 50) / 100;
            let h: u64 = (monitor_height as u64 * 23 + 50) / 100;
            (w as u32, h as u32)
        },
    }
}

/// `a - b`, or 0 when `b` exceeds `a` (`u32::saturating_sub`).
pub open spec fn sat_sub(a: u32, b: u32) -> int {
    if a >= b {
        a - b
    } else {
        0
    }
}

/// The `i32` that `v as i32` gives: the same bits read as two's complement.
pub open spec fn as_i32(v: int) -> int {
    if v <= 0x7fff_ffff {
        v
    } else {
        v - 0x1_0000_0000
    }
}

pub open spec fn fits_i32(v: int) -> bool {
    i32::MIN <= v <= i32::MAX
}

fn to_i32(v: u32) -> (r: i32)
    ensures
        r == as_i32(v as int),
{
    let r = v as i32;
    assert(r == (if v <= 0x7fff_ffff { v as int } else { v - 0x1_0000_0000 })) by (bit_vector)
        requires
            r == v as i32,
    ;
    r
}

/// Where the fixed overlay goes: centred horizontally on the monitor, its bottom edge
/// on the monitor's bottom edge.
pub open spec fn bottom_overlay_at(mon_x: i32, mon_y: i32, mon_w: u32, mon_h: u32, width: u32, height: u32) -> (int, int) {
    (mon_x + sat_sub(mon_w, width) / 2, mon_y + as_i32(sat_sub(mon_h, height)))
}

/// The position of the fixed overlay of size `width` x `height` on a monitor at
/// (`mon_x`, `mon_y`) of size `mon_w` x `mon_h`.
pub fn bottom_overlay_position(mon_x: i32, mon_y: i32, mon_w: u32, mon_h: u32, width: u32, height: u32) -> (r: (i32, i32))
    requires
        fits_i32(bottom_overlay_at(mon_x, mon_y, mon_w, mon_h, width, height).0),
        fits_i32(bottom_overlay_at(mon_x, mon_y, mon_w, mon_h, width, height).1),
    ensures
        r.0 == bottom_overlay_at(mon_x, mon_y, mon_w, mon_h, width, height).0,
        r.1 == bottom_overlay_at(mon_x, mon_y, mon_w, mon_h, width, height).1,
{
    let x = mon_x + to_i32(mon_w.saturating_sub(width) / 2);
    let y = mon_y + to_i32(mon_h.saturating_sub(height));
    (x, y)
}

/// Where a window goes when there is no cursor to follow: centred on the monitor.
pub open spec fn centered_at(mon_x: i32, mon_y: i32, mon_w: u32, mon_h: u32, width: u32, height: u32) -> (int, int) {
    (mon_x + sat_sub(mon_w, width) / 2, mon_y + sat_sub(mon_h, height) / 2)
}

pub fn centered_position(mon_x: i32, mon_y: i32, mon_w: u32, mon_h: u32, width: u32, height: u32) -> (r: (i32, i32))
    requires
        fits_i32(centered_at(mon_x, mon_y, mon_w, mon_h, width, height).0),
        fits_i32(centered_at(mon_x, mon_y, mon_w, mon_h, width, height).1),
    ensures
        r.0 == centered_at(mon_x, mon_y, mon_w, mon_h, width, height).0,
        r.1 == centered_at(mon_x, mon_y, mon_w, mon_h, width, height).1,
{
    let x = mon_x + to_i32(mon_w.saturating_sub(width) / 2);
    let y = mon_y + to_i32(mon_h.saturating_sub(height) / 2);
    (x, y)
}

/// A monitor and a window to place on it, all in physical pixels.
#[derive(Debug, Clone, Copy)]
pub struct Placement {
    pub mon_x: i32,
    pub mon_y: i32,
    pub mon_w: u32,
    pub mon_h: u32,
    pub width: u32,
    pub height: u32,
}

/// Where the floating overlay goes for a cursor at (`cx`, `cy`): `gap` pixels below
/// the cursor, moved left to stay on the monitor, above the cursor when there is no
/// room below, and never above or left of the monitor's top-left corner.
pub open spec fn floating_at(p: Placement, cx: i32, cy: i32, gap: i32) -> (int, int) {
    let right = p.mon_x + as_i32(p.mon_w as int);
    let bottom = p.mon_y + as_i32(p.mon_h as int);
    let w = as_i32(p.width as int);
    let h = as_i32(p.height as int);
    let x0 = if cx + w > right { right - w } else { cx as int };
    let x = if x0 < p.mon_x { p.mon_x as int } else { x0 };
    let y0 = if cy + gap + h > bottom { cy - h - gap } else { cy + gap };
    let y = if y0 < p.mon_y { p.mon_y as int } else { y0 };
    (x, y)
}

/// The sums and differences that placing the floating overlay forms all fit in `i32`.
pub open spec fn floating_fits(p: Placement, cx: i32, cy: i32, gap: i32) -> bool {
    let right = p.mon_x + as_i32(p.mon_w as int);
    let bottom = p.mon_y + as_i32(p.mon_h as int);
    let w = as_i32(p.width as int);
    let h = as_i32(p.height as int);
    &&& fits_i32(cy + gap)
    &&& fits_i32(right)
    &&& fits_i32(bottom)
    &&& fits_i32(cx + w)
    &&& (cx + w > right ==> fits_i32(right - w))
    &&& fits_i32(cy + gap + h)
    &&& (cy + gap + h > bottom ==> fits_i32(cy - h) && fits_i32(cy - h - gap))
}

/// The position of the floating overlay near the cursor; `gap` is the distance kept
/// below the cursor (10 logical pixels in physical ones).
pub fn floating_position(p: Placement, cx: i32, cy: i32, gap: i32) -> (r: (i32, i32))
    requires
        floating_fits(p, cx, cy, gap),
    ensures
        r.0 == floating_at(p, cx, cy, gap).0,
        r.1 == floating_at(p, cx, cy, gap).1,
{
    let w = to_i32(p.width);
    let h = to_i32(p.height);
    let mut x = cx;
    let mut y = cy + gap;
    let right = p.mon_x + to_i32(p.mon_w);
    let bottom = p.mon_y + to_i32(p.mon_h);
    if x + w > right {
        x = right - w;
    }
    if x < p.mon_x {
        x = p.mon_x;
    }
    if y + h > bottom {
        y = cy - h - gap;
    }
    if y < p.mon_y {
        y = p.mon_y;
    }
    (x, y)
}

/// The floating overlay stays where the cursor puts it when it fits there: with the
/// cursor at or right of the monitor's left edge and room for the overlay before the
/// monitor's right edge, its left edge is the cursor's x; likewise, with room below
/// the cursor inside the monitor, its top edge is the gap below the cursor.
pub proof fn floating_overlay_stays_at_cursor_when_it_fits(p: Placement, cx: i32, cy: i32, gap: i32)
    requires
        p.mon_w <= i32::MAX,
        p.mon_h <= i32::MAX,
        p.width <= i32::MAX,
        p.height <= i32::MAX,
    ensures
        p.mon_x <= cx && cx + p.width <= p.mon_x + p.mon_w ==> floating_at(p, cx, cy, gap).0 == cx,
        p.mon_y <= cy + gap && cy + gap + p.height <= p.mon_y + p.mon_h ==> floating_at(p, cx, cy, gap).1
            == cy + gap,
{
}

/// Placing the floating overlay does not depend on where the monitor is: moving the
/// monitor and the cursor by `dx` and `dy` moves the overlay by the same amounts.
pub proof fn floating_overlay_moves_with_its_monitor(
    p: Placement,
    cx: i32,
    cy: i32,
    gap: i32,
    q: Placement,
    qx: i32,
    qy: i32,
    dx: int,
    dy: int,
)
    requires
        q == (Placement { mon_x: q.mon_x, mon_y: q.mon_y, ..p }),
        q.mon_x == p.mon_x + dx,
        q.mon_y == p.mon_y + dy,
        qx == cx + dx,
        qy == cy + dy,
    ensures
        floating_at(q, qx, qy, gap).0 == floating_at(p, cx, cy, gap).0 + dx,
        floating_at(q, qx, qy, gap).1 == floating_at(p, cx, cy, gap).1 + dy,
{
}

/// The floating overlay starts inside the monitor on the left and at the top: its
/// position is never left of or above the monitor's corner.
pub proof fn floating_overlay_starts_on_its_monitor(p: Placement, cx: i32, cy: i32, gap: i32)
    ensures
        floating_at(p, cx, cy, gap).0 >= p.mon_x,
        floating_at(p, cx, cy, gap).1 >= p.mon_y,
{
}

/// What the overlay shortcut does to the main window.
#[derive(Debug, Clone, Copy, PartialEq, Eq, Structural)]
pub enum ToggleAction {
    /// The window is on screen: hide it.
    Hide,
    /// Place the window for the UI mode, restore it if minimized, show and focus it.
    Show { ui_mode: UiMode, unminimize: bool },
}

pub fn toggle_action(visible: bool, minimized: bool, ui_mode: UiMode) -> (r: ToggleAction)
    ensures
        visible && !minimized ==> r == ToggleAction::Hide,
        !(visible && !minimized) ==> r == (ToggleAction::Show { ui_mode, unminimize: minimized }),
{
    if visible && !minimized {
        ToggleAction::Hide
    } else {
        ToggleAction::Show { ui_mode, unminimize: minimized }
    }
}

/// Remember the overlay size that the frontend prefers.
pub fn set_overlay_preferred_size_global(slot: &mut Option<(u32, u32)>, w: u32, h: u32)
    ensures
        *final(slot) == Some((w, h)),
{
    *slot = Some((w, h));
}

/// The overlay size that the frontend prefers, if it set one.
pub fn get_overlay_preferred_size_global(slot: &Option<(u32, u32)>) -> (r: Option<(u32, u32)>)
    ensures
        r == *slot,
{
    *slot
}

/// The frontend's overlay size request: a zero width or height is refused.
pub fn set_overlay_preferred_size(slot: &mut Option<(u32, u32)>, width: u32, height: u32) -> (r:
    Result<(), String>)
    ensures
        (width == 0 || height == 0) ==> r is Err && r->Err_0@ == "invalid size"@ && *final(slot)
            == *old(slot),
        (width != 0 && height != 0) ==> r is Ok && *final(slot) == Some((width, height)),
{
    if width == 0 || height == 0 {
        return Err(String::from_str("invalid size"));
    }
    set_overlay_preferred_size_global(slot, width, height);
    Ok(())
}

pub fn set_current_ui_mode(slot: &mut UiMode, mode: UiMode)
    ensures
        *final(slot) == mode,
{
    *slot = mode;
}

pub fn get_current_ui_mode(slot: &UiMode) -> (r: UiMode)
    ensures
        r == *slot,
{
    *slot
}

/// The accent color that the UI uses.
pub fn get_system_accent_color() -> (r: String)
    ensures
        r@ == "#2563EB"@,
{
    String::from_str("#2563EB")
}

/// Parse an item id given by the frontend.
pub fn parse_item_id(id: &str) -> (r: Result<u128, String>)
    ensures
        (r is Ok) == (uuid_parsed(id@) is Some),
        r is Ok ==> uuid_parsed(id@) == Some(r->Ok_0),
        r is Err ==> r->Err_0@ == "invalid id"@,
        forall|v: u128| #[trigger] uuid_text(v) == id@ ==> r == Ok::<u128, String>(v),
{
    match uuid_parse(id) {
        Ok(v) => Ok(v),
        Err(_) => Err(String::from_str("invalid id")),
    }
}

/// Parse the id of an item to paste; the error names the parse failure.
pub fn parse_paste_item_id(id: &str) -> (r: Result<u128, String>)
    ensures
        (r is Ok) == (uuid_parsed(id@) is Some),
        r is Ok ==> uuid_parsed(id@) == Some(r->Ok_0),
        r is Err ==> crate::text::has_prefix(r->Err_0@, "invalid item id: "@),
{
    match uuid_parse(id) {
        Ok(v) => Ok(v),
        Err(e) => {
            let m = concat("invalid item id: ", uuid_error_text(&e).as_str());
            proof {
                assert(m@.take("invalid item id: "@.len() as int) == "invalid item id: "@);
            }
            Err(m)
        },
    }
}

/// Split at line feeds: the completed lines and the line in progress.
pub open spec fn line_split(s: Seq<char>) -> (Seq<Seq<char>>, Seq<char>)
    decreases s.len(),
{
    if s.len() == 0 {
        (Seq::empty(), Seq::empty())
    } else {
        let (done, cur) = line_split(s.drop_last());
        if s.last() == '\n' {
            (done.push(cur), Seq::empty())
        } else {
            (done, cur.push(s.last()))
        }
    }
}

/// The trimmed lines that are not blank, in order.
pub open spec fn nonblank_trimmed(lines: Seq<Seq<char>>) -> Seq<Seq<char>>
    decreases lines.len(),
{
    if lines.len() == 0 {
        Seq::empty()
    } else {
        let prior = nonblank_trimmed(lines.drop_last());
        if trim_chars(lines.last()).len() > 0 {
            prior.push(trim_chars(lines.last()))
        } else {
            prior
        }
    }
}

/// The file paths in a newline-separated list: each line trimmed, blank lines dropped
/// (what `str::lines`, `trim` and dropping empty strings give).
pub open spec fn path_lines(s: Seq<char>) -> Seq<Seq<char>> {
    let (done, cur) = line_split(s);
    nonblank_trimmed(done.push(cur))
}

fn push_trimmed_if_nonblank(out: &mut Vec<String>, line: &Vec<char>)
    ensures
        final(out)@.map_values(|s: String| s@) == if trim_chars(line@).len() > 0 {
            old(out)@.map_values(|s: String| s@).push(trim_chars(line@))
        } else {
            old(out)@.map_values(|s: String| s@)
        },
{
    let hi = trim_end_index(line);
    let lo = trim_start_index(line, hi);
    proof {
        crate::text::lemma_trailing_ws_bound(line@);
        assert(line@.take(hi as int).skip(lo as int) == line@.subrange(lo as int, hi as int));
    }
    if lo < hi {
        let ghost before = out@;
        out.push(string_of_range(line, lo, hi));
        proof {
            assert(out@.map_values(|s: String| s@) =~= before.map_values(|s: String| s@).push(
                trim_chars(line@),
            ));
        }
    }
}

proof fn lemma_line_split_one_line(s: Seq<char>)
    requires
        !s.contains('\n'),
    ensures
        line_split(s) == (Seq::<Seq<char>>::empty(), s),
    decreases s.len(),
{
    if s.len() > 0 {
        let d = s.drop_last();
        assert(!d.contains('\n')) by {
            if d.contains('\n') {
                let i = choose|i: int| 0 <= i < d.len() && d[i] == '\n';
                assert(s[i] == '\n');
            }
        }
        lemma_line_split_one_line(d);
        assert(s[s.len() - 1] != '\n');
        assert(d.push(s.last()) =~= s);
    }
}

/// A text without a line feed is one path: its trimmed form, or none when blank.
/// Spaces inside a path are kept.
pub proof fn one_line_is_one_path(s: Seq<char>)
    requires
        !s.contains('\n'),
    ensures
        trim_chars(s).len() > 0 ==> path_lines(s) == seq![trim_chars(s)],
        trim_chars(s).len() == 0 ==> path_lines(s).len() == 0,
{
    lemma_line_split_one_line(s);
    let one = Seq::<Seq<char>>::empty().push(s);
    assert(one.drop_last() =~= Seq::<Seq<char>>::empty());
    assert(one.last() == s);
    assert(nonblank_trimmed(Seq::<Seq<char>>::empty()) == Seq::<Seq<char>>::empty());
    assert(path_lines(s) == nonblank_trimmed(one));
    if trim_chars(s).len() > 0 {
        assert(nonblank_trimmed(one) == Seq::<Seq<char>>::empty().push(trim_chars(s)));
        assert(Seq::<Seq<char>>::empty().push(trim_chars(s)) =~= seq![trim_chars(s)]);
    } else {
        assert(nonblank_trimmed(one) == Seq::<Seq<char>>::empty());
    }
}

proof fn lemma_line_split_after_line_feed(a: Seq<char>, b: Seq<char>)
    ensures
        line_split(a + seq!['\n'] + b) == (
            line_split(a).0.push(line_split(a).1) + line_split(b).0,
            line_split(b).1,
        ),
    decreases b.len(),
{
    let p = a + seq!['\n'];
    let big = line_split(a).0.push(line_split(a).1);
    if b.len() == 0 {
        assert(p.drop_last() =~= a);
        assert((a + seq!['\n'] + b) =~= p);
        assert(big + Seq::<Seq<char>>::empty() =~= big);
    } else {
        let b1 = b.drop_last();
        lemma_line_split_after_line_feed(a, b1);
        assert((a + seq!['\n'] + b).drop_last() =~= a + seq!['\n'] + b1);
        assert((a + seq!['\n'] + b).last() == b.last());
        let (d1, c1) = line_split(b1);
        if b.last() == '\n' {
            assert((big + d1).push(c1) =~= big + d1.push(c1));
        }
    }
}

proof fn lemma_nonblank_trimmed_concat(x: Seq<Seq<char>>, y: Seq<Seq<char>>)
    ensures
        nonblank_trimmed(x + y) == nonblank_trimmed(x) + nonblank_trimmed(y),
    decreases y.len(),
{
    if y.len() == 0 {
        assert(x + y =~= x);
        assert(nonblank_trimmed(x) + Seq::<Seq<char>>::empty() =~= nonblank_trimmed(x));
    } else {
        lemma_nonblank_trimmed_concat(x, y.drop_last());
        assert((x + y).drop_last() =~= x + y.drop_last());
        assert((x + y).last() == y.last());
        let l = trim_chars(y.last());
        if l.len() > 0 {
            assert((nonblank_trimmed(x) + nonblank_trimmed(y.drop_last())).push(l) =~= nonblank_trimmed(
                x,
            ) + nonblank_trimmed(y.drop_last()).push(l));
        }
    }
}

/// Paths are split only at line feeds: the paths of two texts joined by a line feed
/// are the paths of the first followed by those of the second.
pub proof fn paths_split_at_line_feeds(a: Seq<char>, b: Seq<char>)
    ensures
        path_lines(a + seq!['\n'] + b) == path_lines(a) + path_lines(b),
{
    lemma_line_split_after_line_feed(a, b);
    let big = line_split(a).0.push(line_split(a).1);
    let (d, c) = line_split(b);
    assert((big + d).push(c) =~= big + d.push(c));
    lemma_nonblank_trimmed_concat(big, d.push(c));
}

/// The file paths of a newline-separated list.
pub fn file_paths_of_text(s: &str) -> (r: Vec<String>)
    ensures
        r@.map_values(|x: String| x@) == path_lines(s@),
{
    let cs = chars_of(s);
    let mut out: Vec<String> = Vec::new();
    let mut cur: Vec<char> = Vec::new();
    let mut i: usize = 0;
    proof {
        assert(cs@.take(0) == Seq::<char>::empty());
        assert(out@.map_values(|x: String| x@) =~= Seq::<Seq<char>>::empty());
    }
    while i < cs.len()
        invariant
            cs@ == s@,
            i <= cs.len(),
            out@.map_values(|x: String| x@) == nonblank_trimmed(line_split(cs@.take(i as int)).0),
            cur@ == line_split(cs@.take(i as int)).1,
        decreases cs.len() - i,
    {
        proof {
            assert(cs@.take(i + 1).drop_last() == cs@.take(i as int));
            assert(cs@.take(i + 1).last() == cs@[i as int]);
        }
        if cs[i] == '\n' {
            push_trimmed_if_nonblank(&mut out, &cur);
            cur = Vec::new();
            proof {
                let d = line_split(cs@.take(i as int)).0;
                assert(d.push(line_split(cs@.take(i as int)).1).drop_last() == d);
            }
        } else {
            cur.push(cs[i]);
        }
        i = i + 1;
    }
    push_trimmed_if_nonblank(&mut out, &cur);
    proof {
        assert(cs@.take(cs@.len() as int) == cs@);
        let (d, c) = line_split(cs@);
        assert(d.push(c).drop_last() == d);
    }
    out
}

/// What pasting an item puts on the clipboard.
#[derive(Debug)]
pub enum PastePlan {
    /// File items: their paths.
    Files(Vec<String>),
    /// Image items: the stored image bytes.
    Image,
    /// Everything else: the text.
    Text(String),
}

/// Whether an item pastes as files: a file item, or one whose content type is "file".
pub open spec fn pastes_as_files(item: ClipboardItem) -> bool {
    item.kind == ClipboardItemKind::File || opt_view(item.content_type) == Some("file"@)
}

pub fn paste_plan(item: &ClipboardItem) -> (r: PastePlan)
    ensures
        pastes_as_files(*item) ==> (r matches PastePlan::Files(paths) && paths@.map_values(
            |x: String| x@,
        ) == path_lines(
            match item.file_paths {
                Some(p) => p@,
                None => item.text@,
            },
        )),
        !pastes_as_files(*item) && item.kind == ClipboardItemKind::Image ==> r is Image,
        !pastes_as_files(*item) && item.kind != ClipboardItemKind::Image ==> (r matches PastePlan::Text(
            t,
        ) && t == item.text),
{
    let is_file = match item.kind {
        ClipboardItemKind::File => true,
        _ => match &item.content_type {
            Some(c) => *c == String::from_str("file"),
            None => false,
        },
    };
    if is_file {
        let paths = match &item.file_paths {
            Some(p) => file_paths_of_text(p.as_str()),
            None => file_paths_of_text(item.text.as_str()),
        };
        PastePlan::Files(paths)
    } else {
        match item.kind {
            ClipboardItemKind::Image => PastePlan::Image,
            _ => PastePlan::Text(item.text.clone()),
        }
    }
}

/// A pinboard name from the frontend: blank names mean "no pinboard".
pub fn normalize_pinboard(pinboard: Option<String>) -> (r: Option<String>)
    ensures
        active_query(pinboard) ==> r == pinboard,
        !active_query(pinboard) ==> r is None,
{
    match pinboard {
        Some(p) => {
            if trim(p.as_str()).as_str().is_empty() {
                None
            } else {
                Some(p)
            }
        },
        None => None,
    }
}

/// Deleting an item moves it to the trash when the trash is enabled, else deletes it.
pub fn delete_item_plan(id: u128, trash_enabled: bool, now: i64) -> (r: Statement)
    ensures
        trash_enabled ==> r.sql == TRASH_SQL && r.params@.len() == 2 && r.params@[0]
            == crate::store::SqlValue::Integer(now) && is_text(r.params@[1], uuid_text(id)),
        !trash_enabled ==> r.sql == DELETE_SQL && r.params@.len() == 1 && is_text(
            r.params@[0],
            uuid_text(id),
        ),
{
    if trash_enabled {
        trash_item_statement(id, now)
    } else {
        delete_item_statement(id)
    }
}

/// The page the history list shows: the trash when asked for, else the history.
pub fn list_page_query(limit: u32, offset: u32, query: Option<String>, include_trashed: Option<
    bool,
>) -> (r: PageQuery)
    ensures
        include_trashed == Some(true) ==> r.count.sql == crate::store::TRASH_COUNT_SQL
            && r.page.sql == crate::store::LIST_TRASHED_SQL,
        include_trashed != Some(true) && active_query(query) ==> r.count.sql
            == crate::store::COUNT_SEARCH_SQL && r.page.sql == crate::store::PAGE_SEARCH_SQL,
        include_trashed != Some(true) && !active_query(query) ==> r.count.sql
            == crate::store::COUNT_ACTIVE_SQL && r.page.sql == crate::store::PAGE_ACTIVE_SQL,
{
    let trashed = match include_trashed {
        Some(b) => b,
        None => false,
    };
    if trashed {
        list_trashed_items_query(limit, offset)
    } else {
        list_items_paginated_query(limit, offset, query)
    }
}

/// The account shown for a cloud provider; a custom folder has none.
pub fn provider_account(provider: SyncProvider) -> (r: Result<ConnectedProviderInfo, String>)
    ensures
        provider == SyncProvider::CustomFolder ==> r is Err && r->Err_0@
            == "Custom folder does not support OAuth"@,
        provider == SyncProvider::IcloudDrive ==> r is Ok && r->Ok_0.account_email@
            == "user@icloud.com"@ && r->Ok_0.account_id@ == "IcloudDrive-user-id"@,
        provider == SyncProvider::OneDrive ==> r is Ok && r->Ok_0.account_email@
            == "user@outlook.com"@ && r->Ok_0.account_id@ == "OneDrive-user-id"@,
        provider == SyncProvider::GoogleDrive ==> r is Ok && r->Ok_0.account_email@
            == "user@gmail.com"@ && r->Ok_0.account_id@ == "GoogleDrive-user-id"@,
        r is Ok ==> r->Ok_0.provider == provider,
{
    match provider {
        SyncProvider::IcloudDrive => Ok(
            ConnectedProviderInfo {
                provider,
                account_email: String::from_str("user@icloud.com"),
                account_id: String::from_str("IcloudDrive-user-id"),
            },
        ),
        SyncProvider::OneDrive => Ok(
            ConnectedProviderInfo {
                provider,
                account_email: String::from_str("user@outlook.com"),
                account_id: String::from_str("OneDrive-user-id"),
            },
        ),
        SyncProvider::GoogleDrive => Ok(
            ConnectedProviderInfo {
                provider,
                account_email: String::from_str("user@gmail.com"),
                account_id: String::from_str("GoogleDrive-user-id"),
            },
        ),
        SyncProvider::CustomFolder => Err(String::from_str("Custom folder does not support OAuth")),
    }
}

/// What a sync-settings change does: the new settings, the passphrase to store (the
/// given one trimmed, when not blank), and whether to forget the stored passphrase
/// (when sync is turned off).
#[derive(Debug)]
pub struct SyncSettingsUpdate {
    pub settings: Settings,
    pub store_passphrase: Option<String>,
    pub clear_passphrase: bool,
}

/// Apply a sync-settings change: an optional theme (refused when blank), the sync
/// switch, provider and folder, and a sync salt when sync is on.
pub fn sync_settings_update(
    settings: Settings,
    enabled: bool,
    provider: Option<SyncProvider>,
    folder: Option<String>,
    passphrase: Option<String>,
    theme: Option<String>,
) -> (r: Result<SyncSettingsUpdate, String>)
    ensures
        theme is Some && trim_chars(theme->0@).len() == 0 ==> r is Err && r->Err_0@
            == "theme cannot be empty"@,
        !(theme is Some && trim_chars(theme->0@).len() == 0) ==> r is Ok,
        r is Ok ==> {
            let u = r->Ok_0;
            &&& u.settings.theme@ == (if theme is Some {
                trim_chars(theme->0@)
            } else {
                settings.theme@
            })
            &&& u.settings.sync_enabled == enabled
            &&& u.settings.sync_provider == provider
            &&& u.settings.sync_folder == folder
            &&& u.settings.device_id == settings.device_id
            &&& u.settings.hotkey == settings.hotkey
            &&& (enabled && settings.sync_salt_b64 is None) ==> u.settings.sync_salt_b64 is Some
                && exists|b: Seq<u8>|
                b.len() == 16 && #[trigger] b64_encode(b, false, true)
                    == u.settings.sync_salt_b64->0@
            &&& !(enabled && settings.sync_salt_b64 is None) ==> u.settings.sync_salt_b64
                == settings.sync_salt_b64
            &&& (passphrase is Some && trim_chars(passphrase->0@).len() > 0) ==> (
            u.store_passphrase is Some && u.store_passphrase->0@ == trim_chars(passphrase->0@))
            &&& !(passphrase is Some && trim_chars(passphrase->0@).len() > 0)
                ==> u.store_passphrase is None
            &&& u.clear_passphrase == !enabled
            &&& u.settings == (Settings {
                theme: u.settings.theme,
                sync_enabled: enabled,
                sync_provider: provider,
                sync_folder: folder,
                sync_salt_b64: u.settings.sync_salt_b64,
                ..settings
            })
        },
{
    let s = match theme {
        Some(t) => set_theme(settings, t)?,
        None => settings,
    };
    let store_passphrase = match passphrase {
        Some(p) => {
            let t = trim(p.as_str());
            if t.as_str().is_empty() {
                None
            } else {
                Some(t)
            }
        },
        None => None,
    };
    let s = set_sync_config(s, enabled, provider, folder);
    let s = if enabled {
        ensure_sync_salt_b64(s)
    } else {
        s
    };
    Ok(SyncSettingsUpdate { settings: s, store_passphrase, clear_passphrase: !enabled })
}

} // verus!
