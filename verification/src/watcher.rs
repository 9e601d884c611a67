//! The clipboard watcher as a state machine. The thread that polls the system
//! clipboard performs each `WatchAction` and answers with the matching
//! `WatchEvent`; every decision about what to store and how long to wait is here.
use vstd::prelude::*;
use crate::text::{trim_chars, string_of};
use crate::models::opt_view;
use crate::clipboard::{MAX_IMAGE_SIZE_BYTES, content_type_of, detect_content_type, text_hash};
use crate::trusted::default_hash_of_str;

verus! {

/// What the watcher learned about an image on the clipboard.
#[derive(Debug)]
pub struct ImageProbe {
    pub hash: u64,
    pub size_bytes: u64,
}

/// A text read from the clipboard; `path_exists` tells whether the trimmed text
/// names an existing path.
#[derive(Debug)]
pub struct TextProbe {
    pub text: String,
    pub path_exists: bool,
}

/// What the polling thread reports back.
#[derive(Debug)]
pub enum WatchEvent {
    /// Start of a poll: whether a stop was requested, and the platform's change count (0 when it has none).
    Tick { stop_requested: bool, change_count: i64 },
    /// The frontmost application when the clipboard changed.
    SourceApp { name: Option<String>, bundle_id: Option<String> },
    /// The image on the clipboard, if any.
    Image(Option<ImageProbe>),
    /// File paths on the clipboard, if any.
    FileUrls(Option<Vec<String>>),
    /// The text on the clipboard, if any.
    Text(Option<TextProbe>),
    /// Whether the requested insertion succeeded.
    Stored(bool),
}

/// What the polling thread must do next.
#[derive(Debug)]
pub enum WatchAction {
    Stop,
    Sleep(u64),
    QuerySourceApp,
    ReadImage,
    InsertImage { source_app_name: Option<String>, source_app_bundle_id: Option<String> },
    ReadFileUrls,
    InsertFiles {
        text: String,
        content_type: Option<String>,
        source_app_name: Option<String>,
        source_app_bundle_id: Option<String>,
    },
    ReadText,
    InsertText {
        text: String,
        content_type: Option<String>,
        source_app_name: Option<String>,
        source_app_bundle_id: Option<String>,
    },
}

/// Which event the watcher waits for; the stored-stages carry the hash to remember on success.
#[derive(Debug, Clone, Copy, PartialEq, Eq, Structural)]
pub enum WatchStage {
    AwaitTick,
    AwaitSourceApp,
    AwaitImage,
    AwaitImageStored(u64),
    AwaitFileUrls,
    AwaitFilesStored(u64),
    AwaitText,
    AwaitTextStored(u64),
    Stopped,
}

#[derive(Debug)]
pub struct WatcherState {
    pub last_text_hash: Option<u64>,
    pub last_image_hash: Option<u64>,
    pub last_change_count: i64,
    pub sleep_ms: u64,
    pub processed_this_change: bool,
    pub cached_source_app: Option<(Option<String>, Option<String>)>,
    pub stage: WatchStage,
}

/// `parts` joined with `sep` between consecutive parts (`[String]::join`).
pub open spec fn joined(parts: Seq<Seq<char>>, sep: char) -> Seq<char>
    decreases parts.len(),
{
    if parts.len() == 0 {
        Seq::empty()
    } else if parts.len() == 1 {
        parts[0]
    } else {
        joined(parts.drop_last(), sep).push(sep) + parts.last()
    }
}

pub open spec fn views(v: Seq<String>) -> Seq<Seq<char>> {
    v.map_values(|s: String| s@)
}

/// `parts.join(sep)`.
pub fn join_with(parts: &Vec<String>, sep: char) -> (r: String)
    ensures
        r@ == joined(views(parts@), sep),
{
    let mut out = String::new();
    let mut i: usize = 0;
    while i < parts.len()
        invariant
            i <= parts.len(),
            out@ == joined(views(parts@.take(i as int)), sep),
        decreases parts.len() - i,
    {
        let ghost before = out@;
        if i > 0 {
            out.push(sep);
        }
        let part = &parts[i];
        for c in it: part.as_str().chars()
            invariant
                it.seq() == part@,
                out@ == (if i > 0 { before.push(sep) } else { before }) + it.seq().take(
                    it.index() as int,
                ),
        {
            out.push(c);
        }
        proof {
            let ps = views(parts@.take(i + 1));
            assert(ps.drop_last() == views(parts@.take(i as int)));
            assert(ps.last() == part@);
            assert(part@.take(part@.len() as int) == part@);
            if i == 0 {
                assert(views(parts@.take(0)) == Seq::<Seq<char>>::empty());
            }
        }
        i = i + 1;
    }
    proof {
        assert(parts@.take(parts@.len() as int) == parts@);
    }
    out
}

pub open spec fn bumped(ms: u64) -> u64 {
    if ms + 100 <= 1000 {
        (ms + 100) as u64
    } else {
        1000
    }
}

impl WatcherState {
    /// The state right after the watcher starts, given the platform's change count.
    pub fn new(initial_change_count: i64) -> (r: Self)
        ensures
            r.wf(),
            r.last_text_hash is None,
            r.last_image_hash is None,
            r.last_change_count == initial_change_count,
            r.sleep_ms == 250,
            !r.processed_this_change,
            r.cached_source_app is None,
            r.stage == WatchStage::AwaitTick,
    {
        WatcherState {
            last_text_hash: None,
            last_image_hash: None,
            last_change_count: initial_change_count,
            sleep_ms: 250,
            processed_this_change: false,
            cached_source_app: None,
            stage: WatchStage::AwaitTick,
        }
    }

    /// The back-off delay stays between 250 and 1000 ms.
    pub open spec fn wf(self) -> bool {
        250 <= self.sleep_ms <= 1000
    }

    /// Whether `e` is the event the watcher waits for.
    pub open spec fn expects(self, e: WatchEvent) -> bool {
        match self.stage {
            WatchStage::AwaitTick => e is Tick,
            WatchStage::AwaitSourceApp => e is SourceApp,
            WatchStage::AwaitImage => e is Image,
            WatchStage::AwaitImageStored(_) => e is Stored,
            WatchStage::AwaitFileUrls => e is FileUrls,
            WatchStage::AwaitFilesStored(_) => e is Stored,
            WatchStage::AwaitText => e is Text,
            WatchStage::AwaitTextStored(_) => e is Stored,
            WatchStage::Stopped => false,
        }
    }

    /// Whether the state is well formed and `e` is the event it waits for: what the
    /// poll loop checks before each `step`.
    pub fn accepts(&self, e: &WatchEvent) -> (r: bool)
        ensures
            r == (self.wf() && self.expects(*e)),
    {
        if self.sleep_ms < 250 || self.sleep_ms > 1000 {
            return false;
        }
        match self.stage {
            WatchStage::AwaitTick => matches!(e, WatchEvent::Tick { .. }),
            WatchStage::AwaitSourceApp => matches!(e, WatchEvent::SourceApp { .. }),
            WatchStage::AwaitImage => matches!(e, WatchEvent::Image(_)),
            WatchStage::AwaitImageStored(_) => matches!(e, WatchEvent::Stored(_)),
            WatchStage::AwaitFileUrls => matches!(e, WatchEvent::FileUrls(_)),
            WatchStage::AwaitFilesStored(_) => matches!(e, WatchEvent::Stored(_)),
            WatchStage::AwaitText => matches!(e, WatchEvent::Text(_)),
            WatchStage::AwaitTextStored(_) => matches!(e, WatchEvent::Stored(_)),
            WatchStage::Stopped => false,
        }
    }

    pub open spec fn source_name(self) -> Option<String> {
        match self.cached_source_app {
            Some(p) => p.0,
            None => None,
        }
    }

    pub open spec fn source_bundle(self) -> Option<String> {
        match self.cached_source_app {
            Some(p) => p.1,
            None => None,
        }
    }

    /// The state and action that the watcher's poll loop moves to on event `e`.
    pub open spec fn next(self, e: WatchEvent, s2: Self, a: WatchAction) -> bool {
        let same_hashes = s2.last_text_hash == self.last_text_hash && s2.last_image_hash
            == self.last_image_hash && s2.cached_source_app == self.cached_source_app
            && s2.last_change_count == self.last_change_count;
        match (self.stage, e) {
            (WatchStage::AwaitTick, WatchEvent::Tick { stop_requested, change_count }) => {
                if stop_requested {
                    s2 == (WatcherState { stage: WatchStage::Stopped, ..self }) && a is Stop
                } else if change_count != 0 && change_count == self.last_change_count {
                    s2 == self && a == WatchAction::Sleep(300)
                } else if change_count != 0 {
                    &&& s2 == (WatcherState {
                        last_change_count: change_count,
                        processed_this_change: false,
                        sleep_ms: 250,
                        stage: WatchStage::AwaitSourceApp,
                        ..self
                    })
                    &&& a is QuerySourceApp
                } else if self.processed_this_change {
                    s2 == self && a == WatchAction::Sleep(300)
                } else {
                    s2 == (WatcherState { stage: WatchStage::AwaitImage, ..self }) && a is ReadImage
                }
            },
            (WatchStage::AwaitSourceApp, WatchEvent::SourceApp { name, bundle_id }) => {
                let s1 = WatcherState { cached_source_app: Some((name, bundle_id)), ..self };
                if self.processed_this_change {
                    s2 == (WatcherState { stage: WatchStage::AwaitTick, ..s1 }) && a
                        == WatchAction::Sleep(300)
                } else {
                    s2 == (WatcherState { stage: WatchStage::AwaitImage, ..s1 }) && a is ReadImage
                }
            },
            (WatchStage::AwaitImage, WatchEvent::Image(probe)) => {
                match probe {
                    Some(p) if self.last_image_hash != Some(p.hash) && p.size_bytes
                        <= MAX_IMAGE_SIZE_BYTES => {
                        &&& s2 == (WatcherState {
                            stage: WatchStage::AwaitImageStored(p.hash),
                            ..self
                        })
                        &&& a == (WatchAction::InsertImage {
                            source_app_name: self.source_name(),
                            source_app_bundle_id: self.source_bundle(),
                        })
                    },
                    Some(p) if self.last_image_hash != Some(p.hash) => {
                        &&& s2 == (WatcherState {
                            last_image_hash: Some(p.hash),
                            processed_this_change: true,
                            sleep_ms: 250,
                            stage: WatchStage::AwaitTick,
                            ..self
                        })
                        &&& a == WatchAction::Sleep(250)
                    },
                    _ => s2 == (WatcherState { stage: WatchStage::AwaitFileUrls, ..self })
                        && a is ReadFileUrls,
                }
            },
            (WatchStage::AwaitImageStored(h), WatchEvent::Stored(ok)) => {
                if ok {
                    &&& s2 == (WatcherState {
                        last_image_hash: Some(h),
                        processed_this_change: true,
                        sleep_ms: 250,
                        stage: WatchStage::AwaitTick,
                        ..self
                    })
                    &&& a == WatchAction::Sleep(250)
                } else {
                    s2 == (WatcherState { stage: WatchStage::AwaitFileUrls, ..self })
                        && a is ReadFileUrls
                }
            },
            (WatchStage::AwaitFileUrls, WatchEvent::FileUrls(urls)) => {
                match urls {
                    Some(paths) => {
                        let t = joined(views(paths@), '\n');
                        let h = default_hash_of_str(trim_chars(t));
                        if self.last_text_hash != Some(h) {
                            &&& s2 == (WatcherState {
                                stage: WatchStage::AwaitFilesStored(h),
                                ..self
                            })
                            &&& a matches WatchAction::InsertFiles {
                                text,
                                content_type,
                                source_app_name,
                                source_app_bundle_id,
                            }
                            &&& text@ == t
                            &&& opt_view(content_type) == Some("file"@)
                            &&& source_app_name == self.source_name()
                            &&& source_app_bundle_id == self.source_bundle()
                        } else {
                            &&& s2 == (WatcherState {
                                sleep_ms: 350,
                                stage: WatchStage::AwaitTick,
                                ..self
                            })
                            &&& a == WatchAction::Sleep(350)
                        }
                    },
                    None => s2 == (WatcherState { stage: WatchStage::AwaitText, ..self })
                        && a is ReadText,
                }
            },
            (WatchStage::AwaitFilesStored(h), WatchEvent::Stored(ok)) => {
                if ok {
                    &&& s2 == (WatcherState {
                        last_text_hash: Some(h),
                        processed_this_change: true,
                        sleep_ms: 250,
                        stage: WatchStage::AwaitTick,
                        ..self
                    })
                    &&& a == WatchAction::Sleep(250)
                } else {
                    s2 == (WatcherState { stage: WatchStage::AwaitText, ..self }) && a is ReadText
                }
            },
            (WatchStage::AwaitText, WatchEvent::Text(probe)) => {
                match probe {
                    Some(p) if self.last_text_hash != Some(
                        default_hash_of_str(trim_chars(p.text@)),
                    ) => {
                        &&& s2 == (WatcherState {
                            stage: WatchStage::AwaitTextStored(
                                default_hash_of_str(trim_chars(p.text@)),
                            ),
                            ..self
                        })
                        &&& a matches WatchAction::InsertText {
                            text,
                            content_type,
                            source_app_name,
                            source_app_bundle_id,
                        }
                        &&& text == p.text
                        &&& opt_view(content_type) == content_type_of(p.text@, p.path_exists)
                        &&& source_app_name == self.source_name()
                        &&& source_app_bundle_id == self.source_bundle()
                    },
                    _ => {
                        &&& s2 == (WatcherState {
                            sleep_ms: bumped(self.sleep_ms),
                            stage: WatchStage::AwaitTick,
                            ..self
                        })
                        &&& a == WatchAction::Sleep(bumped(self.sleep_ms))
                    },
                }
            },
            (WatchStage::AwaitTextStored(h), WatchEvent::Stored(ok)) => {
                if ok {
                    &&& s2 == (WatcherState {
                        last_text_hash: Some(h),
                        processed_this_change: true,
                        sleep_ms: 250,
                        stage: WatchStage::AwaitTick,
                        ..self
                    })
                    &&& a == WatchAction::Sleep(250)
                } else {
                    &&& s2 == (WatcherState {
                        sleep_ms: bumped(self.sleep_ms),
                        stage: WatchStage::AwaitTick,
                        ..self
                    })
                    &&& a == WatchAction::Sleep(bumped(self.sleep_ms))
                }
            },
            _ => false,
        }
    }

    fn source_app(&self) -> (r: (Option<String>, Option<String>))
        ensures
            r.0 == self.source_name(),
            r.1 == self.source_bundle(),
    {
        match &self.cached_source_app {
            Some(p) => (crate::models::clone_opt_string(&p.0), crate::models::clone_opt_string(&p.1)),
            None => (None, None),
        }
    }

    /// Take one step of the poll loop.
    pub fn step(self, e: WatchEvent) -> (r: (Self, WatchAction))
        requires
            self.wf(),
            self.expects(e),
        ensures
            r.0.wf(),
            self.next(e, r.0, r.1),
            r.1 matches WatchAction::Sleep(ms) ==> 250 <= ms <= 1000,
    {
        let mut s = self;
        match e {
            WatchEvent::Tick { stop_requested, change_count } => {
                if stop_requested {
                    s.stage = WatchStage::Stopped;
                    (s, WatchAction::Stop)
                } else if change_count != 0 && change_count == s.last_change_count {
                    (s, WatchAction::Sleep(300))
                } else if change_count != 0 {
                    s.last_change_count = change_count;
                    s.processed_this_change = false;
                    s.sleep_ms = 250;
                    s.stage = WatchStage::AwaitSourceApp;
                    (s, WatchAction::QuerySourceApp)
                } else if s.processed_this_change {
                    (s, WatchAction::Sleep(300))
                } else {
                    s.stage = WatchStage::AwaitImage;
                    (s, WatchAction::ReadImage)
                }
            },
            WatchEvent::SourceApp { name, bundle_id } => {
                s.cached_source_app = Some((name, bundle_id));
                if s.processed_this_change {
                    s.stage = WatchStage::AwaitTick;
                    (s, WatchAction::Sleep(300))
                } else {
                    s.stage = WatchStage::AwaitImage;
                    (s, WatchAction::ReadImage)
                }
            },
            WatchEvent::Image(probe) => {
                match probe {
                    Some(p) => {
                        let seen = match s.last_image_hash {
                            Some(h) => h == p.hash,
                            None => false,
                        };
                        if !seen && p.size_bytes <= MAX_IMAGE_SIZE_BYTES {
                            let (n, b) = s.source_app();
                            s.stage = WatchStage::AwaitImageStored(p.hash);
                            (s, WatchAction::InsertImage { source_app_name: n, source_app_bundle_id: b })
                        } else if !seen {
                            s.last_image_hash = Some(p.hash);
                            s.processed_this_change = true;
                            s.sleep_ms = 250;
                            s.stage = WatchStage::AwaitTick;
                            (s, WatchAction::Sleep(250))
                        } else {
                            s.stage = WatchStage::AwaitFileUrls;
                            (s, WatchAction::ReadFileUrls)
                        }
                    },
                    None => {
                        s.stage = WatchStage::AwaitFileUrls;
                        (s, WatchAction::ReadFileUrls)
                    },
                }
            },
            WatchEvent::FileUrls(urls) => {
                match urls {
                    Some(paths) => {
                        let t = join_with(&paths, '\n');
                        let h = text_hash(t.as_str());
                        let seen = match s.last_text_hash {
                            Some(x) => x == h,
                            None => false,
                        };
                        if !seen {
                            let (n, b) = s.source_app();
                            s.stage = WatchStage::AwaitFilesStored(h);
                            (
                                s,
                                WatchAction::InsertFiles {
                                    text: t,
                                    content_type: Some(String::from_str("file")),
                                    source_app_name: n,
                                    source_app_bundle_id: b,
                                },
                            )
                        } else {
                            s.sleep_ms = 350;
                            s.stage = WatchStage::AwaitTick;
                            (s, WatchAction::Sleep(350))
                        }
                    },
                    None => {
                        s.stage = WatchStage::AwaitText;
                        (s, WatchAction::ReadText)
                    },
                }
            },
            WatchEvent::Text(probe) => {
                let bumped_ms = if s.sleep_ms + 100 <= 1000 {
                    s.sleep_ms + 100
                } else {
                    1000
                };
                match probe {
                    Some(p) => {
                        let h = text_hash(p.text.as_str());
                        let seen = match s.last_text_hash {
                            Some(x) => x == h,
                            None => false,
                        };
                        if !seen {
                            let ct = detect_content_type(p.text.as_str(), p.path_exists);
                            let (n, b) = s.source_app();
                            s.stage = WatchStage::AwaitTextStored(h);
                            (
                                s,
                                WatchAction::InsertText {
                                    text: p.text,
                                    content_type: ct,
                                    source_app_name: n,
                                    source_app_bundle_id: b,
                                },
                            )
                        } else {
                            s.sleep_ms = bumped_ms;
                            s.stage = WatchStage::AwaitTick;
                            (s, WatchAction::Sleep(bumped_ms))
                        }
                    },
                    None => {
                        s.sleep_ms = bumped_ms;
                        s.stage = WatchStage::AwaitTick;
                        (s, WatchAction::Sleep(bumped_ms))
                    },
                }
            },
            WatchEvent::Stored(ok) => {
                match s.stage {
                    WatchStage::AwaitImageStored(h) => {
                        if ok {
                            s.last_image_hash = Some(h);
                            s.processed_this_change = true;
                            s.sleep_ms = 250;
                            s.stage = WatchStage::AwaitTick;
                            (s, WatchAction::Sleep(250))
                        } else {
                            s.stage = WatchStage::AwaitFileUrls;
                            (s, WatchAction::ReadFileUrls)
                        }
                    },
                    WatchStage::AwaitFilesStored(h) => {
                        if ok {
                            s.last_text_hash = Some(h);
                            s.processed_this_change = true;
                            s.sleep_ms = 250;
                            s.stage = WatchStage::AwaitTick;
                            (s, WatchAction::Sleep(250))
                        } else {
                            s.stage = WatchStage::AwaitText;
                            (s, WatchAction::ReadText)
                        }
                    },
                    _ => {
                        let h = match s.stage {
                            WatchStage::AwaitTextStored(h) => h,
                            _ => 0,
                        };
                        if ok {
                            s.last_text_hash = Some(h);
                            s.processed_this_change = true;
                            s.sleep_ms = 250;
                            s.stage = WatchStage::AwaitTick;
                            (s, WatchAction::Sleep(250))
                        } else {
                            let bumped_ms = if s.sleep_ms + 100 <= 1000 {
                                s.sleep_ms + 100
                            } else {
                                1000
                            };
                            s.sleep_ms = bumped_ms;
                            s.stage = WatchStage::AwaitTick;
                            (s, WatchAction::Sleep(bumped_ms))
                        }
                    },
                }
            },
        }
    }
}

/// A poll whose clipboard change count is known and unchanged only waits: nothing is
/// read or stored, and the state stays as it was.
pub proof fn unchanged_counter_only_sleeps(
    s: WatcherState,
    change_count: i64,
    s2: WatcherState,
    a: WatchAction,
)
    requires
        s.stage == WatchStage::AwaitTick,
        change_count != 0,
        change_count == s.last_change_count,
        s.next(WatchEvent::Tick { stop_requested: false, change_count }, s2, a),
    ensures
        s2 == s,
        a == WatchAction::Sleep(300),
{
}

/// A text whose trimmed form hashes like the last stored text is not stored again;
/// the watcher backs off instead.
pub proof fn repeated_text_is_not_stored(s: WatcherState, p: TextProbe, s2: WatcherState, a: WatchAction)
    requires
        s.stage == WatchStage::AwaitText,
        s.last_text_hash == Some(default_hash_of_str(trim_chars(p.text@))),
        s.next(WatchEvent::Text(Some(p)), s2, a),
    ensures
        a == WatchAction::Sleep(bumped(s.sleep_ms)),
        s2.last_text_hash == s.last_text_hash,
        s2.stage == WatchStage::AwaitTick,
{
}

/// A stop request ends the watcher whatever the clipboard holds.
pub proof fn stop_request_stops(s: WatcherState, change_count: i64, s2: WatcherState, a: WatchAction)
    requires
        s.stage == WatchStage::AwaitTick,
        s.next(WatchEvent::Tick { stop_requested: true, change_count }, s2, a),
    ensures
        a is Stop,
        s2.stage == WatchStage::Stopped,
        !s2.expects(WatchEvent::Tick { stop_requested: false, change_count }),
{
}

/// A new clipboard change is always read: a poll that sees a known change count
/// different from the last one clears the "already processed" mark, asks for the
/// frontmost application, and once that is known the watcher reads the image first.
pub proof fn a_new_change_is_read(
    s: WatcherState,
    change_count: i64,
    s2: WatcherState,
    a: WatchAction,
    name: Option<String>,
    bundle_id: Option<String>,
    s3: WatcherState,
    a3: WatchAction,
)
    requires
        s.stage == WatchStage::AwaitTick,
        change_count != 0,
        change_count != s.last_change_count,
        s.next(WatchEvent::Tick { stop_requested: false, change_count }, s2, a),
        s2.next(WatchEvent::SourceApp { name, bundle_id }, s3, a3),
    ensures
        !s2.processed_this_change,
        s2.last_change_count == change_count,
        a is QuerySourceApp,
        a3 is ReadImage,
        s3.cached_source_app == Some((name, bundle_id)),
        s3.stage == WatchStage::AwaitImage,
{
}

} // verus!
