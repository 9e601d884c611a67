use powerpaste::commands::{
    bottom_overlay_position, centered_position, floating_position, overlay_size_for_monitor,
    toggle_action, Placement, ToggleAction,
};
use powerpaste::models::UiMode;
use powerpaste::watcher::{WatchEvent, WatcherState};

fn placement(width: u32, height: u32) -> Placement {
    Placement { mon_x: 0, mon_y: 0, mon_w: 1920, mon_h: 1080, width, height }
}

#[test]
fn fixed_overlay_sits_on_bottom_edge() {
    let (w, h) = overlay_size_for_monitor(1920, 1080, UiMode::Fixed);
    assert_eq!((w, h), (1901, 248));
    assert_eq!(bottom_overlay_position(0, 0, 1920, 1080, w, h), (9, 832));
    assert_eq!(bottom_overlay_position(1920, -200, 1920, 1080, w, h), (1929, 632));
    // A window larger than the monitor starts at the monitor's corner.
    assert_eq!(bottom_overlay_position(5, 7, 100, 100, 200, 300), (5, 7));
}

#[test]
fn fallback_centres_on_monitor() {
    assert_eq!(centered_position(0, 0, 1920, 1080, 320, 480), (800, 300));
    assert_eq!(centered_position(-1920, 10, 1920, 1080, 2000, 2000), (-1920, 10));
}

#[test]
fn floating_overlay_follows_cursor() {
    let p = placement(320, 480);
    // Room below and to the right: just below the cursor.
    assert_eq!(floating_position(p, 100, 100, 10), (100, 110));
    // Too close to the right edge: moved left.
    assert_eq!(floating_position(p, 1800, 100, 10), (1600, 110));
    // No room below: above the cursor.
    assert_eq!(floating_position(p, 100, 900, 20), (100, 400));
    // Above would leave the monitor: clamped to its top.
    let tall = placement(320, 1000);
    assert_eq!(floating_position(tall, 100, 500, 10), (100, 0));
    // Left of the monitor: clamped to its left edge.
    let shifted = Placement { mon_x: 50, ..p };
    assert_eq!(floating_position(shifted, 10, 100, 10), (50, 110));
}

#[test]
fn shortcut_toggles_window() {
    assert_eq!(toggle_action(true, false, UiMode::Fixed), ToggleAction::Hide);
    assert_eq!(
        toggle_action(true, true, UiMode::Floating),
        ToggleAction::Show { ui_mode: UiMode::Floating, unminimize: true }
    );
    assert_eq!(
        toggle_action(false, false, UiMode::Fixed),
        ToggleAction::Show { ui_mode: UiMode::Fixed, unminimize: false }
    );
}

#[test]
fn watcher_accepts_only_awaited_event() {
    let s = WatcherState::new(0);
    assert!(s.accepts(&WatchEvent::Tick { stop_requested: false, change_count: 0 }));
    assert!(!s.accepts(&WatchEvent::Stored(true)));
    assert!(!s.accepts(&WatchEvent::Text(None)));
}
