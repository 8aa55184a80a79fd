//! Window resolution: choosing the one window whose strip is inspected,
//! including the popup-parent fallback for transient browser popups, the
//! browser post-check, and the bounds check that gates any capture work.

use vstd::prelude::*;
use crate::text::{contains_ci, contains_ci_bytes};

verus! {

/// Absolute screen cursor coordinates, queried fresh per invocation.
#[derive(Clone, Copy, PartialEq, Eq, Structural, Debug)]
pub struct CursorPos {
    pub x: i32,
    pub y: i32,
}

/// One entry of the window-enumeration snapshot. Text fields are byte
/// strings as the platform reported them.
pub struct WindowInfo {
    pub id: u32,
    pub title: Vec<u8>,
    pub app_name: Vec<u8>,
    pub x: i32,
    pub y: i32,
    pub width: u32,
    pub height: u32,
    pub focused: bool,
}

/// The OS-reported active window: its title, the file name of its owning
/// process, and its position.
pub struct ActiveWindow {
    pub title: Vec<u8>,
    pub process_name: Vec<u8>,
    pub x: i32,
    pub y: i32,
}

/// The injected configuration: the browser marker that tags transient popups
/// and their parents, the markers of supported browsers, the popup-parent
/// search thresholds, the strip height, and the pre-check radius.
pub struct HoverConfig {
    pub popup_marker: Vec<u8>,
    pub browser_markers: Vec<Vec<u8>>,
    pub y_threshold: i32,
    pub x_tolerance: i32,
    pub strip_height: u32,
    pub proximity_radius: u32,
}

/// The configuration as shipped: Edge popups resolved to the nearest Edge
/// window above-left within 50 pixels, Edge and Chrome as supported
/// browsers, a 60-pixel strip, and a pre-check radius of 2.
pub fn default_config() -> (cfg: HoverConfig)
    ensures
        cfg.popup_marker@ =~= seq![101u8, 100u8, 103u8, 101u8],
        cfg.browser_markers@.len() == 2,
        cfg.browser_markers@[0]@ =~= seq![101u8, 100u8, 103u8, 101u8],
        cfg.browser_markers@[1]@ =~= seq![99u8, 104u8, 114u8, 111u8, 109u8, 101u8],
        cfg.y_threshold == 50,
        cfg.x_tolerance == 50,
        cfg.strip_height == 60,
        cfg.proximity_radius == 2,
{
    let popup_marker: Vec<u8> = vec![101, 100, 103, 101];
    let edge: Vec<u8> = vec![101, 100, 103, 101];
    let chrome: Vec<u8> = vec![99, 104, 114, 111, 109, 101];
    let browser_markers: Vec<Vec<u8>> = vec![edge, chrome];
    HoverConfig {
        popup_marker,
        browser_markers,
        y_threshold: 50,
        x_tolerance: 50,
        strip_height: 60,
        proximity_radius: 2,
    }
}

/// Why window resolution can fail; either failure aborts the invocation.
#[derive(Clone, Copy, PartialEq, Eq, Structural, Debug)]
pub enum ResolveError {
    NoFocusedWindow,
    NoPopupParentFound,
}

impl ResolveError {
    /// The diagnostic text surfaced to the relay for this failure.
    pub fn message(&self) -> (r: &'static str)
        ensures
            *self is NoFocusedWindow ==> r@ == "No focused window found"@,
            *self is NoPopupParentFound ==> r@ == "No popup parent window found"@,
    {
        match self {
            ResolveError::NoFocusedWindow => "No focused window found",
            ResolveError::NoPopupParentFound => "No popup parent window found",
        }
    }
}

/// The active window looks like a transient browser popup: no usable title,
/// and its owning process carries the popup marker.
pub open spec fn is_popup(active: ActiveWindow, cfg: HoverConfig) -> bool {
    active.title@.len() == 0 && contains_ci(active.process_name@, cfg.popup_marker@)
}

/// The horizontal gap from a candidate parent to the popup; the candidate
/// closest from the left (smallest gap) wins.
pub open spec fn popup_gap(active: ActiveWindow, w: WindowInfo) -> int {
    active.x - w.x
}

/// A window may stand in as the popup's parent: same browser marker, a real
/// title (which excludes the popup itself), sitting above the popup within
/// the vertical threshold, and not far to the popup's right.
pub open spec fn popup_candidate(active: ActiveWindow, w: WindowInfo, cfg: HoverConfig) -> bool {
    &&& contains_ci(w.app_name@, cfg.popup_marker@)
    &&& w.title@.len() > 0
    &&& 0 < active.y - w.y < cfg.y_threshold
    &&& w.x < active.x + cfg.x_tolerance
}

/// `i` names the window resolution selects: under the popup heuristic, the
/// first candidate with the smallest horizontal gap; otherwise the first
/// window flagged focused (first-in-snapshot is the deterministic
/// tie-break).
pub open spec fn selected_index(active: ActiveWindow, ws: Seq<WindowInfo>, cfg: HoverConfig, i: int) -> bool {
    if is_popup(active, cfg) {
        &&& 0 <= i < ws.len()
        &&& popup_candidate(active, ws[i], cfg)
        &&& forall|j: int| 0 <= j < ws.len() && #[trigger] popup_candidate(active, ws[j], cfg)
                ==> popup_gap(active, ws[i]) <= popup_gap(active, ws[j])
        &&& forall|j: int| 0 <= j < i && #[trigger] popup_candidate(active, ws[j], cfg)
                ==> popup_gap(active, ws[i]) < popup_gap(active, ws[j])
    } else {
        &&& 0 <= i < ws.len()
        &&& ws[i].focused
        &&& forall|j: int| 0 <= j < i ==> !(#[trigger] ws[j]).focused
    }
}

/// Resolution is deterministic: at most one index can be the selected one,
/// under either policy's tie-break.
pub proof fn lemma_selected_index_unique(active: ActiveWindow, ws: Seq<WindowInfo>, cfg: HoverConfig, i: int, j: int)
    requires
        selected_index(active, ws, cfg, i),
        selected_index(active, ws, cfg, j),
    ensures
        i == j,
{
    if is_popup(active, cfg) {
        if i < j {
            assert(popup_candidate(active, ws[i], cfg));
        }
        if j < i {
            assert(popup_candidate(active, ws[j], cfg));
        }
    } else {
        if i < j {
            assert(!ws[i].focused);
        }
        if j < i {
            assert(!ws[j].focused);
        }
    }
}

fn is_popup_exec(active: &ActiveWindow, cfg: &HoverConfig) -> (r: bool)
    ensures
        r == is_popup(*active, *cfg),
{
    active.title.len() == 0 && contains_ci_bytes(&active.process_name, &cfg.popup_marker)
}

fn popup_candidate_exec(active: &ActiveWindow, w: &WindowInfo, cfg: &HoverConfig) -> (r: bool)
    ensures
        r == popup_candidate(*active, *w, *cfg),
{
    let y_diff: i64 = active.y as i64 - w.y as i64;
    if !(0 < y_diff && y_diff < cfg.y_threshold as i64) {
        return false;
    }
    if !((w.x as i64) < active.x as i64 + cfg.x_tolerance as i64) {
        return false;
    }
    if w.title.len() == 0 {
        return false;
    }
    contains_ci_bytes(&w.app_name, &cfg.popup_marker)
}

/// Selects the window to inspect: the popup-parent heuristic when the active
/// window is a titleless browser popup, otherwise the window flagged focused.
/// Returns its index into the snapshot.
pub fn resolve_window(active: &ActiveWindow, windows: &Vec<WindowInfo>, cfg: &HoverConfig) -> (r: Result<usize, ResolveError>)
    ensures
        match r {
            Ok(i) => selected_index(*active, windows@, *cfg, i as int),
            Err(e) => {
                &&& (e is NoPopupParentFound <==> is_popup(*active, *cfg)
                        && (forall|j: int| 0 <= j < windows@.len()
                                ==> !(#[trigger] popup_candidate(*active, windows@[j], *cfg))))
                &&& (e is NoFocusedWindow <==> !is_popup(*active, *cfg)
                        && (forall|j: int| 0 <= j < windows@.len() ==> !(#[trigger] windows@[j]).focused))
            },
        },
{
    let n = windows.len();
    if is_popup_exec(active, cfg) {
        let mut best: Option<usize> = None;
        let mut best_gap: i64 = 0;
        let mut j: usize = 0;
        while j < n
            invariant
                n == windows@.len(),
                0 <= j <= n,
                is_popup(*active, *cfg),
                match best {
                    None => forall|k: int| 0 <= k < j
                        ==> !(#[trigger] popup_candidate(*active, windows@[k], *cfg)),
                    Some(b) => {
                        &&& b < j
                        &&& popup_candidate(*active, windows@[b as int], *cfg)
                        &&& best_gap == popup_gap(*active, windows@[b as int])
                        &&& forall|k: int| 0 <= k < j && #[trigger] popup_candidate(*active, windows@[k], *cfg)
                                ==> best_gap <= popup_gap(*active, windows@[k])
                        &&& forall|k: int| 0 <= k < b && #[trigger] popup_candidate(*active, windows@[k], *cfg)
                                ==> best_gap < popup_gap(*active, windows@[k])
                    },
                },
            decreases n - j,
        {
            if popup_candidate_exec(active, &windows[j], cfg) {
                let gap: i64 = active.x as i64 - windows[j].x as i64;
                match best {
                    None => {
                        best = Some(j);
                        best_gap = gap;
                    },
                    Some(_) => {
                        if gap < best_gap {
                            best = Some(j);
                            best_gap = gap;
                        }
                    },
                }
            }
            j = j + 1;
        }
        match best {
            Some(b) => Ok(b),
            None => Err(ResolveError::NoPopupParentFound),
        }
    } else {
        let mut j: usize = 0;
        while j < n
            invariant
                n == windows@.len(),
                0 <= j <= n,
                !is_popup(*active, *cfg),
                forall|k: int| 0 <= k < j ==> !(#[trigger] windows@[k]).focused,
            decreases n - j,
        {
            if windows[j].focused {
                return Ok(j);
            }
            j = j + 1;
        }
        Err(ResolveError::NoFocusedWindow)
    }
}

/// The resolved window's app name carries one of the supported browser
/// markers.
pub open spec fn supported_browser(name: Seq<u8>, markers: Seq<Vec<u8>>) -> bool {
    exists|k: int| 0 <= k < markers.len() && contains_ci(name, #[trigger] markers[k]@)
}

/// Whether the app name names a supported browser.
pub fn is_supported_browser(app_name: &Vec<u8>, cfg: &HoverConfig) -> (r: bool)
    ensures
        r == supported_browser(app_name@, cfg.browser_markers@),
{
    let n = cfg.browser_markers.len();
    let mut k: usize = 0;
    while k < n
        invariant
            n == cfg.browser_markers@.len(),
            0 <= k <= n,
            forall|l: int| 0 <= l < k ==> !contains_ci(app_name@, #[trigger] cfg.browser_markers@[l]@),
        decreases n - k,
    {
        if contains_ci_bytes(app_name, &cfg.browser_markers[k]) {
            return true;
        }
        k = k + 1;
    }
    false
}

/// The cursor lies on the window's tab-strip rectangle: within the window
/// horizontally and within `strip_height` of its top, bounds inclusive.
pub open spec fn in_strip(c: CursorPos, w: WindowInfo, strip_height: u32) -> bool {
    &&& w.x <= c.x <= w.x + w.width
    &&& w.y <= c.y <= w.y + strip_height
}

fn in_strip_exec(c: &CursorPos, w: &WindowInfo, strip_height: u32) -> (r: bool)
    ensures
        r == in_strip(*c, *w, strip_height),
{
    let cx = c.x as i64;
    let cy = c.y as i64;
    let left = w.x as i64;
    let right = w.x as i64 + w.width as i64;
    let top = w.y as i64;
    let bottom = w.y as i64 + strip_height as i64;
    left <= cx && cx <= right && top <= cy && cy <= bottom
}

/// What the invocation should do next after resolution and the bounds check.
#[derive(Debug)]
pub enum ScanPlan {
    /// The overall answer is already 0: the resolved window is not a
    /// supported browser, or the cursor lies outside its strip.
    NoGroup,
    /// Capture the window at `index` and scan: the cursor in strip-relative
    /// coordinates, and the row to scan (half the strip height).
    Capture { index: usize, cursor_rel_x: u32, cursor_rel_y: u32, scan_y: u32 },
}

/// Resolves the window and performs the bounds check, deciding whether any
/// capture and scan work is owed at all. A resolution failure is an error;
/// a non-browser window or a cursor outside the strip is a successful 0.
pub fn plan_scan(active: &ActiveWindow, windows: &Vec<WindowInfo>, cursor: &CursorPos, cfg: &HoverConfig) -> (r: Result<ScanPlan, ResolveError>)
    ensures
        match r {
            Ok(plan) => exists|i: int|
                #[trigger] selected_index(*active, windows@, *cfg, i) && match plan {
                    ScanPlan::NoGroup => !supported_browser(windows@[i].app_name@, cfg.browser_markers@)
                        || !in_strip(*cursor, windows@[i], cfg.strip_height),
                    ScanPlan::Capture { index, cursor_rel_x, cursor_rel_y, scan_y } => {
                        &&& index == i
                        &&& supported_browser(windows@[i].app_name@, cfg.browser_markers@)
                        &&& in_strip(*cursor, windows@[i], cfg.strip_height)
                        &&& cursor_rel_x == cursor.x - windows@[i].x
                        &&& cursor_rel_y == cursor.y - windows@[i].y
                        &&& scan_y == cfg.strip_height / 2
                    },
                },
            Err(e) => {
                &&& (e is NoPopupParentFound <==> is_popup(*active, *cfg)
                        && (forall|j: int| 0 <= j < windows@.len()
                                ==> !(#[trigger] popup_candidate(*active, windows@[j], *cfg))))
                &&& (e is NoFocusedWindow <==> !is_popup(*active, *cfg)
                        && (forall|j: int| 0 <= j < windows@.len() ==> !(#[trigger] windows@[j]).focused))
            },
        },
{
    let i = match resolve_window(active, windows, cfg) {
        Ok(i) => i,
        Err(e) => {
            return Err(e);
        },
    };
    let w = &windows[i];
    if !is_supported_browser(&w.app_name, cfg) {
        return Ok(ScanPlan::NoGroup);
    }
    if !in_strip_exec(cursor, w, cfg.strip_height) {
        return Ok(ScanPlan::NoGroup);
    }
    let rel_x: u32 = (cursor.x as i64 - w.x as i64) as u32;
    let rel_y: u32 = (cursor.y as i64 - w.y as i64) as u32;
    Ok(ScanPlan::Capture { index: i, cursor_rel_x: rel_x, cursor_rel_y: rel_y, scan_y: cfg.strip_height / 2 })
}

} // verus!
