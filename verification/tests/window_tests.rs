use tab_hover::text::contains_ci_bytes;
use tab_hover::window::{
    default_config, plan_scan, resolve_window, ActiveWindow, CursorPos, HoverConfig, ResolveError,
    ScanPlan, WindowInfo,
};

fn win(id: u32, title: &str, app: &str, x: i32, y: i32, w: u32, h: u32, focused: bool) -> WindowInfo {
    WindowInfo {
        id,
        title: title.as_bytes().to_vec(),
        app_name: app.as_bytes().to_vec(),
        x,
        y,
        width: w,
        height: h,
        focused,
    }
}

fn active(title: &str, process: &str, x: i32, y: i32) -> ActiveWindow {
    ActiveWindow {
        title: title.as_bytes().to_vec(),
        process_name: process.as_bytes().to_vec(),
        x,
        y,
    }
}

fn cfg() -> HoverConfig {
    default_config()
}

#[test]
fn default_config_as_shipped() {
    let c = cfg();
    assert_eq!(c.popup_marker, b"edge".to_vec());
    assert_eq!(c.browser_markers.len(), 2);
    assert_eq!(c.browser_markers[0], b"edge".to_vec());
    assert_eq!(c.browser_markers[1], b"chrome".to_vec());
    assert_eq!(c.y_threshold, 50);
    assert_eq!(c.x_tolerance, 50);
    assert_eq!(c.strip_height, 60);
    assert_eq!(c.proximity_radius, 2);
}

#[test]
fn contains_ci_matches_mixed_case() {
    assert!(contains_ci_bytes(&b"Microsoft Edge".to_vec(), &b"edge".to_vec()));
    assert!(contains_ci_bytes(&b"MSEDGE.EXE".to_vec(), &b"edge".to_vec()));
    assert!(contains_ci_bytes(&b"chrome.exe".to_vec(), &b"chrome".to_vec()));
    assert!(!contains_ci_bytes(&b"firefox".to_vec(), &b"edge".to_vec()));
    assert!(contains_ci_bytes(&b"anything".to_vec(), &b"".to_vec()));
    assert!(!contains_ci_bytes(&b"ab".to_vec(), &b"abc".to_vec()));
}

#[test]
fn focused_window_selected() {
    let a = active("Some page", "msedge.exe", 100, 100);
    let ws = vec![
        win(1, "One", "Notepad", 0, 0, 100, 100, false),
        win(2, "Two", "Microsoft Edge", 0, 0, 800, 600, true),
        win(3, "Three", "Microsoft Edge", 0, 0, 800, 600, true),
    ];
    // First-in-snapshot breaks the tie among focused windows.
    assert_eq!(resolve_window(&a, &ws, &cfg()), Ok(1));
}

#[test]
fn no_focused_window_fails() {
    let a = active("Some page", "msedge.exe", 100, 100);
    let ws = vec![win(1, "One", "Notepad", 0, 0, 100, 100, false)];
    let e = resolve_window(&a, &ws, &cfg()).unwrap_err();
    assert!(matches!(e, ResolveError::NoFocusedWindow));
    assert_eq!(e.message(), "No focused window found");
}

#[test]
fn popup_resolves_to_closest_parent_from_left() {
    // A titleless Edge popup at (100, 100); two candidates above it within
    // 50 px, at vertical offsets 10 and 40: the one with the smaller
    // horizontal gap wins.
    let a = active("", "msedge.exe", 100, 100);
    let ws = vec![
        win(1, "Far", "Microsoft Edge", 60, 90, 800, 600, false),
        win(2, "Near", "Microsoft Edge", 80, 60, 800, 600, false),
        win(3, "", "Microsoft Edge", 100, 100, 200, 300, true),
    ];
    assert_eq!(resolve_window(&a, &ws, &cfg()), Ok(1));
}

#[test]
fn popup_parent_ignores_window_below_or_far() {
    let a = active("", "msedge.exe", 100, 100);
    let ws = vec![
        // Below the popup: excluded.
        win(1, "Below", "Microsoft Edge", 60, 120, 800, 600, false),
        // Too far above: excluded.
        win(2, "High", "Microsoft Edge", 60, 20, 800, 600, false),
        // Far to the right: excluded.
        win(3, "Right", "Microsoft Edge", 200, 90, 800, 600, false),
    ];
    let e = resolve_window(&a, &ws, &cfg()).unwrap_err();
    assert!(matches!(e, ResolveError::NoPopupParentFound));
    assert_eq!(e.message(), "No popup parent window found");
}

#[test]
fn cursor_outside_strip_is_no_group() {
    let a = active("Some page", "msedge.exe", 0, 0);
    let ws = vec![win(1, "Page", "Microsoft Edge", 0, 0, 800, 600, true)];
    // Below the 60-px strip.
    let r = plan_scan(&a, &ws, &CursorPos { x: 100, y: 100 }, &cfg()).unwrap();
    assert!(matches!(r, ScanPlan::NoGroup));
    // Off to the right.
    let r = plan_scan(&a, &ws, &CursorPos { x: 900, y: 10 }, &cfg()).unwrap();
    assert!(matches!(r, ScanPlan::NoGroup));
    // Above the window.
    let r = plan_scan(&a, &ws, &CursorPos { x: 100, y: -1 }, &cfg()).unwrap();
    assert!(matches!(r, ScanPlan::NoGroup));
}

#[test]
fn non_browser_window_is_no_group() {
    let a = active("Notes", "notepad.exe", 0, 0);
    let ws = vec![win(1, "Notes", "Notepad", 0, 0, 800, 600, true)];
    let r = plan_scan(&a, &ws, &CursorPos { x: 100, y: 10 }, &cfg()).unwrap();
    assert!(matches!(r, ScanPlan::NoGroup));
}

#[test]
fn cursor_inside_strip_plans_a_capture() {
    let a = active("Some page", "msedge.exe", 0, 0);
    let ws = vec![win(7, "Page", "Microsoft Edge", 50, 20, 800, 600, true)];
    let r = plan_scan(&a, &ws, &CursorPos { x: 130, y: 45 }, &cfg()).unwrap();
    match r {
        ScanPlan::Capture { index, cursor_rel_x, cursor_rel_y, scan_y } => {
            assert_eq!(index, 0);
            assert_eq!(cursor_rel_x, 80);
            assert_eq!(cursor_rel_y, 25);
            assert_eq!(scan_y, 30);
        },
        ScanPlan::NoGroup => panic!("expected a capture plan"),
    }
}

#[test]
fn resolution_error_propagates_through_plan() {
    let a = active("Some page", "msedge.exe", 0, 0);
    let ws: Vec<WindowInfo> = vec![];
    let e = plan_scan(&a, &ws, &CursorPos { x: 0, y: 0 }, &cfg()).unwrap_err();
    assert!(matches!(e, ResolveError::NoFocusedWindow));
}
