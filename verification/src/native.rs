//! The decisions inside the macOS and Windows platform code, apart from the system
//! calls around them: reading `osascript` answers, the permissions verdict, the
//! paste failure message, icon lookup and cache names, PowerShell quoting, and the
//! `CF_HDROP` file list.
use vstd::prelude::*;
use crate::models::opt_view;
use crate::text::{trim, trim_chars, concat, contains_str, contains_seq, chars_of, push_str, string_of_range};
use crate::trusted::{unicode_alphanumeric, is_alphanumeric_char};
use crate::encoding::{hex_digit, hex_digit_of};
use crate::platform::PermissionsStatus;

verus! {

/// The answer of an `osascript` query: its trimmed output, when it succeeded and
/// printed something.
pub open spec fn answer_of(success: bool, stdout: Seq<char>) -> Option<Seq<char>> {
    if success && trim_chars(stdout).len() > 0 {
        Some(trim_chars(stdout))
    } else {
        None
    }
}

/// Read the answer of an `osascript` query from its exit status and output.
pub fn osascript_answer(success: bool, stdout: &str) -> (r: Option<String>)
    ensures
        opt_view(r) == answer_of(success, stdout@),
{
    if !success {
        return None;
    }
    let t = trim(stdout);
    if t.as_str().is_empty() {
        None
    } else {
        Some(t)
    }
}

/// How the Automation check (an `osascript` call to System Events) went.
#[derive(Debug)]
pub enum AutomationCheck {
    /// It ran and succeeded.
    Passed,
    /// It ran and failed; its error output.
    Failed(String),
    /// It could not be run; the error's text.
    NotRun(String),
}

/// What the Automation check says when it does not pass.
pub open spec fn automation_details(a: AutomationCheck) -> Option<Seq<char>> {
    match a {
        AutomationCheck::Passed => None,
        AutomationCheck::Failed(stderr) => if trim_chars(stderr@).len() == 0 {
            Some("Automation check failed"@)
        } else {
            Some(trim_chars(stderr@))
        },
        AutomationCheck::NotRun(e) => Some("Automation check failed: "@ + e@),
    }
}

/// The explanation shown with the permissions: what is missing, else the
/// Automation check's own message.
pub open spec fn permission_details(accessibility_ok: bool, a: AutomationCheck) -> Option<Seq<char>> {
    if !accessibility_ok && !(a is Passed) {
        Some("Both Accessibility and Automation permissions are required."@)
    } else if !accessibility_ok {
        Some("Accessibility permission is required."@)
    } else {
        automation_details(a)
    }
}

/// The macOS permissions status from the Accessibility trust flag and the Automation
/// check; the app counts as bundled when it runs from inside an `.app` bundle.
pub fn macos_permissions(executable_path: String, accessibility_ok: bool, automation: AutomationCheck) -> (r:
    PermissionsStatus)
    ensures
        r.platform@ == "macos"@,
        r.automation_ok == automation is Passed,
        r.accessibility_ok == accessibility_ok,
        r.can_paste == (automation is Passed && accessibility_ok),
        opt_view(r.details) == permission_details(accessibility_ok, automation),
        r.is_bundled == contains_seq(executable_path@, ".app/Contents/MacOS/"@),
        r.executable_path == executable_path,
{
    let is_bundled = contains_str(executable_path.as_str(), ".app/Contents/MacOS/");
    let automation_ok = matches!(automation, AutomationCheck::Passed);
    let details = match automation {
        AutomationCheck::Passed => None,
        AutomationCheck::Failed(stderr) => {
            let msg = trim(stderr.as_str());
            if msg.as_str().is_empty() {
                Some(String::from_str("Automation check failed"))
            } else {
                Some(msg)
            }
        },
        AutomationCheck::NotRun(e) => Some(concat("Automation check failed: ", e.as_str())),
    };
    let final_details = if !accessibility_ok && !automation_ok {
        Some(String::from_str("Both Accessibility and Automation permissions are required."))
    } else if !accessibility_ok {
        Some(String::from_str("Accessibility permission is required."))
    } else {
        details
    };
    PermissionsStatus {
        platform: String::from_str("macos"),
        can_paste: automation_ok && accessibility_ok,
        automation_ok,
        accessibility_ok,
        details: final_details,
        is_bundled,
        executable_path,
    }
}

/// The first of the trimmed error output, the trimmed standard output, or a fixed
/// text, whichever is not blank.
pub open spec fn failure_detail(stderr: Seq<char>, stdout: Seq<char>) -> Seq<char> {
    if trim_chars(stderr).len() > 0 {
        trim_chars(stderr)
    } else if trim_chars(stdout).len() > 0 {
        trim_chars(stdout)
    } else {
        "osascript paste failed"@
    }
}

/// The message of a failed paste keystroke on macOS, with the failure's details.
pub fn paste_failure_message(stderr: &str, stdout: &str) -> (r: String)
    ensures
        r@ == "Paste failed. On macOS this requires Accessibility + Automation permissions. System Settings \u{2192} Privacy & Security \u{2192} Accessibility (enable PowerPaste) and Privacy & Security \u{2192} Automation (allow controlling System Events). Details: "@
            + failure_detail(stderr@, stdout@),
{
    let e = trim(stderr);
    let o = trim(stdout);
    let msg = if !e.as_str().is_empty() {
        e
    } else if !o.as_str().is_empty() {
        o
    } else {
        String::from_str("osascript paste failed")
    };
    concat(
        "Paste failed. On macOS this requires Accessibility + Automation permissions. System Settings \u{2192} Privacy & Security \u{2192} Accessibility (enable PowerPaste) and Privacy & Security \u{2192} Automation (allow controlling System Events). Details: ",
        msg.as_str(),
    )
}

/// The character that stands for `c` in an icon cache file name.
pub open spec fn cache_char(c: char) -> char {
    if unicode_alphanumeric(c) || c == '.' {
        c
    } else {
        '_'
    }
}

/// The icon cache file of an application id: every character that is neither
/// alphanumeric nor '.' becomes '_', and ".png" follows.
pub open spec fn icon_cache_name(id: Seq<char>) -> Seq<char> {
    id.map_values(|c: char| cache_char(c)) + ".png"@
}

pub fn icon_cache_file_name(id: &str) -> (r: String)
    ensures
        r@ == icon_cache_name(id@),
{
    let cs = chars_of(id);
    let mut out = String::new();
    let mut i: usize = 0;
    while i < cs.len()
        invariant
            cs@ == id@,
            i <= cs.len(),
            out@ == cs@.take(i as int).map_values(|c: char| cache_char(c)),
        decreases cs.len() - i,
    {
        let c = cs[i];
        let keep = is_alphanumeric_char(c) || c == '.';
        out.push(if keep { c } else { '_' });
        proof {
            assert(cs@.take(i + 1).map_values(|c: char| cache_char(c)) =~= cs@.take(i as int).map_values(
                |c: char| cache_char(c),
            ).push(cache_char(c)));
        }
        i = i + 1;
    }
    proof {
        assert(cs@.take(cs@.len() as int) == cs@);
    }
    push_str(&mut out, ".png");
    out
}

/// Whether `s` ends with `p` (`str::ends_with`).
pub open spec fn has_suffix(s: Seq<char>, p: Seq<char>) -> bool {
    p.len() <= s.len() && s.skip(s.len() - p.len()) == p
}

fn ends_with(s: &Vec<char>, p: &str) -> (r: bool)
    ensures
        r == has_suffix(s@, p@),
{
    let pv = chars_of(p);
    if pv.len() > s.len() {
        return false;
    }
    let off = s.len() - pv.len();
    let mut i: usize = 0;
    while i < pv.len()
        invariant
            pv@ == p@,
            pv.len() <= s.len(),
            off == s.len() - pv.len(),
            i <= pv.len(),
            forall|j: int| 0 <= j < i ==> s@[off + j] == pv@[j],
        decreases pv.len() - i,
    {
        if s[off + i] != pv[i] {
            proof {
                assert(s@.skip(off as int)[i as int] != pv@[i as int]);
            }
            return false;
        }
        i = i + 1;
    }
    proof {
        assert(s@.skip(off as int) =~= pv@);
    }
    true
}

/// The icon file named in an app's Info.plist (`CFBundleIconFile`, as printed):
/// trimmed, with ".icns" added when missing.
pub open spec fn icns_name(printed: Seq<char>) -> Seq<char> {
    let t = trim_chars(printed);
    if has_suffix(t, ".icns"@) {
        t
    } else {
        t + ".icns"@
    }
}

/// The path of a file in an app bundle's resources.
pub open spec fn resource_path(app: Seq<char>, name: Seq<char>) -> Seq<char> {
    app + "/Contents/Resources/"@ + name
}

/// The icon files to try for an app bundle, in order: the one its Info.plist names
/// (when reading it succeeded), then the usual names.
pub open spec fn icon_paths(app: Seq<char>, plist_icon: Option<Seq<char>>) -> Seq<Seq<char>> {
    let usual = seq![
        resource_path(app, "AppIcon.icns"@),
        resource_path(app, "app.icns"@),
        resource_path(app, "icon.icns"@),
    ];
    match plist_icon {
        Some(p) => seq![resource_path(app, icns_name(p))] + usual,
        None => usual,
    }
}

fn resource(app: &str, name: &str) -> (r: String)
    ensures
        r@ == resource_path(app@, name@),
{
    let mut out = concat(app, "/Contents/Resources/");
    push_str(&mut out, name);
    out
}

/// The icon files to try for the app bundle at `app_path`; `plist_icon` is what
/// reading its `CFBundleIconFile` printed, when that succeeded.
pub fn icon_candidates(app_path: &str, plist_icon: Option<String>) -> (r: Vec<String>)
    ensures
        r@.map_values(|s: String| s@) == icon_paths(app_path@, opt_view(plist_icon)),
{
    let mut out: Vec<String> = Vec::new();
    match plist_icon {
        Some(printed) => {
            let t = trim(printed.as_str());
            let tv = chars_of(t.as_str());
            let name = if ends_with(&tv, ".icns") {
                t
            } else {
                concat(t.as_str(), ".icns")
            };
            out.push(resource(app_path, name.as_str()));
        },
        None => {},
    }
    out.push(resource(app_path, "AppIcon.icns"));
    out.push(resource(app_path, "app.icns"));
    out.push(resource(app_path, "icon.icns"));
    proof {
        assert(out@.map_values(|s: String| s@) =~= icon_paths(app_path@, opt_view(plist_icon)));
    }
    out
}

/// The Info.plist of an app bundle.
pub fn info_plist_path(app_path: &str) -> (r: String)
    ensures
        r@ == app_path@ + "/Contents/Info.plist"@,
{
    concat(app_path, "/Contents/Info.plist")
}

/// The Spotlight query that finds an application by its bundle id.
pub fn bundle_query(bundle_id: &str) -> (r: String)
    ensures
        r@ == "kMDItemCFBundleIdentifier == '"@ + bundle_id@ + "'"@,
{
    let mut q = concat("kMDItemCFBundleIdentifier == '", bundle_id);
    push_str(&mut q, "'");
    q
}

/// The characters before the first line feed.
pub open spec fn before_newline(s: Seq<char>) -> Seq<char>
    decreases s.len(),
{
    if s.len() == 0 || s[0] == '\n' {
        Seq::empty()
    } else {
        seq![s[0]] + before_newline(s.drop_first())
    }
}

/// The first line of a text (`str::lines().next()`): none for an empty text; a
/// line ended by a line feed loses that line feed and a carriage return before it.
pub open spec fn first_line(s: Seq<char>) -> Option<Seq<char>> {
    if s.len() == 0 {
        None
    } else if !s.contains('\n') {
        Some(s)
    } else {
        let l = before_newline(s);
        if l.len() > 0 && l.last() == '\r' {
            Some(l.drop_last())
        } else {
            Some(l)
        }
    }
}

proof fn lemma_before_newline(s: Seq<char>, i: int)
    requires
        0 <= i <= s.len(),
        forall|j: int| 0 <= j < i ==> s[j] != '\n',
        i == s.len() || s[i] == '\n',
    ensures
        before_newline(s) == s.take(i),
    decreases i,
{
    if i > 0 {
        lemma_before_newline(s.drop_first(), i - 1);
        assert(s.take(i) =~= seq![s[0]] + s.drop_first().take(i - 1));
    } else {
        assert(s.take(0) =~= Seq::<char>::empty());
    }
}

/// The first line of a command's output.
pub fn first_output_line(text: &str) -> (r: Option<String>)
    ensures
        opt_view(r) == first_line(text@),
{
    let cs = chars_of(text);
    let mut i: usize = 0;
    while i < cs.len() && cs[i] != '\n'
        invariant
            cs@ == text@,
            i <= cs.len(),
            forall|j: int| 0 <= j < i ==> cs@[j] != '\n',
        decreases cs.len() - i,
    {
        i = i + 1;
    }
    proof {
        lemma_before_newline(cs@, i as int);
    }
    if cs.len() == 0 {
        return None;
    }
    if i == cs.len() {
        proof {
            assert(!cs@.contains('\n'));
            assert(cs@.take(i as int) == cs@);
        }
        return Some(string_of_range(&cs, 0, i));
    }
    proof {
        assert(cs@.contains('\n')) by {
            assert(cs@[i as int] == '\n');
        }
    }
    if i > 0 && cs[i - 1] == '\r' {
        proof {
            assert(cs@.take(i as int).drop_last() =~= cs@.subrange(0, i - 1));
        }
        Some(string_of_range(&cs, 0, i - 1))
    } else {
        proof {
            assert(cs@.take(i as int) =~= cs@.subrange(0, i as int));
        }
        Some(string_of_range(&cs, 0, i))
    }
}

/// How a character is written inside a single-quoted PowerShell string: a quote
/// is doubled.
pub open spec fn ps_piece(c: char) -> Seq<char> {
    if c == '\'' {
        seq!['\'', '\'']
    } else {
        seq![c]
    }
}

/// `s` with every single quote doubled (`str::replace('\'', "''")`).
pub open spec fn ps_quoted(s: Seq<char>) -> Seq<char>
    decreases s.len(),
{
    if s.len() == 0 {
        Seq::empty()
    } else {
        ps_quoted(s.drop_last()) + ps_piece(s.last())
    }
}

/// What PowerShell reads from the text between the quotes of a single-quoted
/// string: a doubled quote stands for one quote; none when a lone quote would end
/// the string early.
pub open spec fn ps_unquoted(t: Seq<char>) -> Option<Seq<char>>
    decreases t.len(),
{
    if t.len() == 0 {
        Some(Seq::empty())
    } else if t.last() != '\'' {
        match ps_unquoted(t.drop_last()) {
            Some(u) => Some(u.push(t.last())),
            None => None,
        }
    } else if t.len() >= 2 && t[t.len() - 2] == '\'' {
        match ps_unquoted(t.take(t.len() - 2)) {
            Some(u) => Some(u.push('\'')),
            None => None,
        }
    } else {
        None
    }
}

/// Quoting is undone by PowerShell: any text placed between single quotes after
/// `ps_quote` reads back as itself, so it cannot end the string early.
pub proof fn ps_quote_reads_back(s: Seq<char>)
    ensures
        ps_unquoted(ps_quoted(s)) == Some(s),
    decreases s.len(),
{
    if s.len() > 0 {
        ps_quote_reads_back(s.drop_last());
        let q = ps_quoted(s.drop_last());
        let t = ps_quoted(s);
        if s.last() == '\'' {
            assert(t.take(t.len() - 2) =~= q);
        } else {
            assert(t.drop_last() =~= q);
        }
        assert(s.drop_last().push(s.last()) =~= s);
    }
}

/// Quote a text for a single-quoted PowerShell string.
pub fn ps_quote(s: &str) -> (r: String)
    ensures
        r@ == ps_quoted(s@),
{
    let cs = chars_of(s);
    let mut out = String::new();
    let mut i: usize = 0;
    while i < cs.len()
        invariant
            cs@ == s@,
            i <= cs.len(),
            out@ == ps_quoted(cs@.take(i as int)),
        decreases cs.len() - i,
    {
        let c = cs[i];
        proof {
            assert(cs@.take(i + 1).drop_last() =~= cs@.take(i as int));
        }
        if c == '\'' {
            out.push('\'');
            out.push('\'');
            proof {
                assert(ps_piece(c) =~= seq!['\'', '\'']);
            }
        } else {
            out.push(c);
        }
        i = i + 1;
    }
    proof {
        assert(cs@.take(cs@.len() as int) == cs@);
    }
    out
}

/// The PowerShell script that saves the icon of the program at `exe_path` as a PNG
/// file at `png_path`; both paths are quoted.
pub fn icon_extract_script(exe_path: &str, png_path: &str) -> (r: String)
    ensures
        r@ == "Add-Type -AssemblyName System.Drawing; $icon = [System.Drawing.Icon]::ExtractAssociatedIcon('"@
            + ps_quoted(exe_path@)
            + "'); if ($icon) { $bmp = $icon.ToBitmap(); $bmp.Save('"@ + ps_quoted(png_path@)
            + "', [System.Drawing.Imaging.ImageFormat]::Png); $bmp.Dispose(); $icon.Dispose() }"@,
{
    let mut out = String::from_str(
        "Add-Type -AssemblyName System.Drawing; $icon = [System.Drawing.Icon]::ExtractAssociatedIcon('",
    );
    push_str(&mut out, ps_quote(exe_path).as_str());
    push_str(&mut out, "'); if ($icon) { $bmp = $icon.ToBitmap(); $bmp.Save('");
    push_str(&mut out, ps_quote(png_path).as_str());
    push_str(&mut out, "', [System.Drawing.Imaging.ImageFormat]::Png); $bmp.Dispose(); $icon.Dispose() }");
    out
}

/// A character in UTF-16 (`char::encode_utf16`), each code unit little-endian.
pub open spec fn utf16le_of_char(c: char) -> Seq<u8> {
    let v = c as u32 as int;
    if v < 0x10000 {
        seq![(v % 256) as u8, (v / 256) as u8]
    } else {
        let hi = 0xD800 + (v - 0x10000) / 0x400;
        let lo = 0xDC00 + (v - 0x10000) % 0x400;
        seq![(hi % 256) as u8, (hi / 256) as u8, (lo % 256) as u8, (lo / 256) as u8]
    }
}

/// A text in UTF-16, little-endian.
pub open spec fn utf16le(s: Seq<char>) -> Seq<u8>
    decreases s.len(),
{
    if s.len() == 0 {
        Seq::empty()
    } else {
        utf16le(s.drop_last()) + utf16le_of_char(s.last())
    }
}

/// The paths of a file list, each in UTF-16 and ended by a zero code unit.
pub open spec fn file_list(paths: Seq<Seq<char>>) -> Seq<u8>
    decreases paths.len(),
{
    if paths.len() == 0 {
        Seq::empty()
    } else {
        file_list(paths.drop_last()) + utf16le(paths.last()) + seq![0u8, 0u8]
    }
}

/// The `DROPFILES` header of a wide-character file list: the list starts at byte 20
/// (`pFiles`), the drop point and `fNC` are zero, and `fWide` is 1.
pub open spec fn drop_files_header() -> Seq<u8> {
    seq![20u8, 0, 0, 0, 0, 0, 0, 0, 0, 0, 0, 0, 0, 0, 0, 0, 1, 0, 0, 0]
}

/// The `CF_HDROP` clipboard data for some paths: the header, then the file list
/// ended by one more zero code unit.
pub open spec fn drop_files(paths: Seq<Seq<char>>) -> Seq<u8> {
    drop_files_header() + file_list(paths) + seq![0u8, 0u8]
}

fn push_utf16le_char(out: &mut Vec<u8>, c: char)
    ensures
        final(out)@ == old(out)@ + utf16le_of_char(c),
{
    let v = c as u32;
    if v < 0x10000 {
        out.push((v % 256) as u8);
        out.push((v / 256) as u8);
    } else {
        let hi: u32 = 0xD800 + (v - 0x10000) / 0x400;
        let lo: u32 = 0xDC00 + (v - 0x10000) % 0x400;
        out.push((hi % 256) as u8);
        out.push((hi / 256) as u8);
        out.push((lo % 256) as u8);
        out.push((lo / 256) as u8);
    }
    proof {
        assert(final(out)@ =~= old(out)@ + utf16le_of_char(c));
    }
}

fn push_utf16le(out: &mut Vec<u8>, s: &str)
    ensures
        final(out)@ == old(out)@ + utf16le(s@),
{
    let cs = chars_of(s);
    let ghost start = out@;
    let mut i: usize = 0;
    proof {
        assert(start + utf16le(cs@.take(0)) =~= start);
    }
    while i < cs.len()
        invariant
            cs@ == s@,
            i <= cs.len(),
            out@ == start + utf16le(cs@.take(i as int)),
        decreases cs.len() - i,
    {
        proof {
            assert(cs@.take(i + 1).drop_last() =~= cs@.take(i as int));
        }
        push_utf16le_char(out, cs[i]);
        proof {
            assert(out@ =~= start + utf16le(cs@.take(i + 1)));
        }
        i = i + 1;
    }
    proof {
        assert(cs@.take(cs@.len() as int) == cs@);
    }
}

/// The `CF_HDROP` data that puts `paths` on the Windows clipboard; no paths is an error.
pub fn drop_files_data(paths: &[String]) -> (r: Result<Vec<u8>, String>)
    ensures
        paths@.len() == 0 ==> r is Err && r->Err_0@ == "no file paths provided"@,
        paths@.len() > 0 ==> r is Ok && r->Ok_0@ == drop_files(paths@.map_values(|p: String| p@)),
{
    if paths.len() == 0 {
        return Err(String::from_str("no file paths provided"));
    }
    let ghost ps = paths@.map_values(|p: String| p@);
    let mut out: Vec<u8> = Vec::new();
    out.push(20);
    let mut k: usize = 1;
    while k < 16
        invariant
            1 <= k <= 16,
            out@ == drop_files_header().take(k as int),
        decreases 16 - k,
    {
        out.push(0);
        proof {
            assert(out@ =~= drop_files_header().take(k + 1));
        }
        k = k + 1;
    }
    out.push(1);
    out.push(0);
    out.push(0);
    out.push(0);
    proof {
        assert(out@ =~= drop_files_header() + file_list(ps.take(0)));
    }
    let mut i: usize = 0;
    while i < paths.len()
        invariant
            ps == paths@.map_values(|p: String| p@),
            i <= paths.len(),
            out@ == drop_files_header() + file_list(ps.take(i as int)),
        decreases paths.len() - i,
    {
        proof {
            assert(ps.take(i + 1).drop_last() =~= ps.take(i as int));
            assert(ps.take(i + 1).last() == paths@[i as int]@);
        }
        push_utf16le(&mut out, paths[i].as_str());
        out.push(0);
        out.push(0);
        proof {
            assert(out@ =~= drop_files_header() + file_list(ps.take(i + 1)));
        }
        i = i + 1;
    }
    out.push(0);
    out.push(0);
    proof {
        assert(ps.take(ps.len() as int) == ps);
        assert(out@ =~= drop_files(ps));
    }
    Ok(out)
}

/// Whether the frontmost application is one to paste into later: not a developer
/// tool whose name contains "node", "PowerPaste" or "Code Helper".
pub open spec fn is_paste_target_name(name: Seq<char>) -> bool {
    !contains_seq(name, "node"@) && !contains_seq(name, "PowerPaste"@) && !contains_seq(
        name,
        "Code Helper"@,
    )
}

/// Whether the overlay records `name` as the application to paste into.
pub fn is_paste_target(name: &str) -> (r: bool)
    ensures
        r == is_paste_target_name(name@),
{
    !contains_str(name, "node") && !contains_str(name, "PowerPaste") && !contains_str(
        name,
        "Code Helper",
    )
}

/// The decimal digits of `n` (`u32`'s `Display`).
pub open spec fn decimal(n: nat) -> Seq<char>
    decreases n,
{
    if n < 10 {
        seq![hex_digit(n as int)]
    } else {
        decimal(n / 10).push(hex_digit((n % 10) as int))
    }
}

fn push_decimal(out: &mut String, n: u32)
    ensures
        final(out)@ == old(out)@ + decimal(n as nat),
    decreases n,
{
    if n >= 10 {
        push_decimal(out, n / 10);
    }
    let d = hex_digit_of((n % 10) as u128);
    out.push(d);
    proof {
        if n < 10 {
            assert(decimal(n as nat) == seq![hex_digit(n as int)]);
        }
    }
}

/// The outcome of injecting the Ctrl+V keystroke on Windows: `sent` of `expected`
/// input events went through; fewer is an error that gives both numbers.
pub fn send_input_outcome(sent: u32, expected: u32) -> (r: Result<(), String>)
    ensures
        sent == expected ==> r is Ok,
        sent != expected ==> r is Err && r->Err_0@ == "SendInput only injected "@ + decimal(
            sent as nat,
        ) + "/"@ + decimal(expected as nat) + " events"@,
{
    if sent == expected {
        return Ok(());
    }
    let mut m = String::from_str("SendInput only injected ");
    push_decimal(&mut m, sent);
    push_str(&mut m, "/");
    push_decimal(&mut m, expected);
    push_str(&mut m, " events");
    Err(m)
}

} // verus!
