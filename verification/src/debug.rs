//! The diagnostic renderer: an annotated copy of the captured strip, with
//! the scan row as a solid line, the cursor as a small cross, and each
//! discovered band's boundary columns as vertical marks. It observes the
//! decision path and never alters it.

use vstd::prelude::*;
use crate::grid::PixelGrid;
use crate::scan::Span;

verus! {

/// The solid color of the scan-row line.
pub open spec fn scan_line_color() -> u32 {
    0xFF0000
}

/// The solid color of the cursor cross.
pub open spec fn cursor_color() -> u32 {
    0x00FF00
}

/// The solid color of a band's boundary marks.
pub open spec fn boundary_color() -> u32 {
    0x0000FF
}

/// `x` is a boundary column of one of the spans.
pub open spec fn is_boundary(spans: Seq<Span>, x: int) -> bool {
    exists|k: int| 0 <= k < spans.len() && ((#[trigger] spans[k]).start == x || spans[k].end == x)
}

/// `(x, y)` lies on the cursor cross: an 11-pixel horizontal and vertical
/// arm centered on the cursor, drawn only when the cursor row is on the
/// strip.
pub open spec fn on_cursor_cross(cx: u32, cy: u32, strip_h: u32, x: int, y: int) -> bool {
    cy < strip_h && ((y == cy && cx - 5 <= x <= cx + 5) || (x == cx && cy - 5 <= y <= cy + 5))
}

/// The annotated strip's sample at `(x, y)`: boundary marks paint over the
/// cursor cross, the cross over the scan line, the line over the captured
/// sample; where the capture has no sample the strip stays black.
pub open spec fn debug_pixel(g: PixelGrid, scan_y: u32, cx: u32, cy: u32, strip_h: u32, spans: Seq<Span>, x: int, y: int) -> u32 {
    if is_boundary(spans, x) {
        boundary_color()
    } else if on_cursor_cross(cx, cy, strip_h, x, y) {
        cursor_color()
    } else if y == scan_y {
        scan_line_color()
    } else {
        match g.sample_spec(x, y) {
            Some(c) => c,
            None => 0,
        }
    }
}

fn is_boundary_exec(spans: &Vec<Span>, x: u32) -> (r: bool)
    ensures
        r == is_boundary(spans@, x as int),
{
    let n = spans.len();
    let mut k: usize = 0;
    while k < n
        invariant
            n == spans@.len(),
            0 <= k <= n,
            forall|l: int| 0 <= l < k ==> !((#[trigger] spans@[l]).start == x || spans@[l].end == x),
        decreases n - k,
    {
        if spans[k].start == x || spans[k].end == x {
            proof {
                assert((spans@[k as int]).start == x || spans@[k as int].end == x);
            }
            return true;
        }
        k = k + 1;
    }
    false
}

fn on_cursor_cross_exec(cx: u32, cy: u32, strip_h: u32, x: u32, y: u32) -> (r: bool)
    ensures
        r == on_cursor_cross(cx, cy, strip_h, x as int, y as int),
{
    if cy >= strip_h {
        return false;
    }
    let xi = x as i64;
    let yi = y as i64;
    let cxi = cx as i64;
    let cyi = cy as i64;
    (yi == cyi && cxi - 5 <= xi && xi <= cxi + 5) || (xi == cxi && cyi - 5 <= yi && yi <= cyi + 5)
}

/// Renders the annotated copy of a captured strip: the grid's width, the
/// strip's height, every sample as `debug_pixel` paints it.
pub fn render_debug(g: &PixelGrid, scan_y: u32, cx: u32, cy: u32, strip_h: u32, spans: &Vec<Span>) -> (r: PixelGrid)
    requires
        g.wf(),
    ensures
        r.wf(),
        r.width == g.width,
        r.height == strip_h,
        forall|x: int, y: int| 0 <= x < g.width && 0 <= y < strip_h
            ==> r.row(y)[x] == debug_pixel(*g, scan_y, cx, cy, strip_h, spans@, x, y),
{
    let w = g.width;
    let mut pixels: Vec<u32> = Vec::new();
    let mut y: u32 = 0;
    while y < strip_h
        invariant
            g.wf(),
            w == g.width,
            0 <= y <= strip_h,
            pixels@.len() == y as int * w as int,
            forall|k: int| 0 <= k < pixels@.len()
                ==> #[trigger] pixels@[k] == debug_pixel(*g, scan_y, cx, cy, strip_h, spans@, k % (w as int), k / (w as int)),
        decreases strip_h - y,
    {
        let mut x: u32 = 0;
        while x < w
            invariant
                g.wf(),
                w == g.width,
                0 <= y < strip_h,
                0 <= x <= w,
                pixels@.len() == y as int * w as int + x as int,
                forall|k: int| 0 <= k < pixels@.len()
                    ==> #[trigger] pixels@[k] == debug_pixel(*g, scan_y, cx, cy, strip_h, spans@, k % (w as int), k / (w as int)),
            decreases w - x,
        {
            let base = match g.sample(x, y) {
                Some(c) => c,
                None => 0,
            };
            let c = if is_boundary_exec(spans, x) {
                0x0000FFu32
            } else if on_cursor_cross_exec(cx, cy, strip_h, x, y) {
                0x00FF00u32
            } else if y == scan_y {
                0xFF0000u32
            } else {
                base
            };
            pixels.push(c);
            proof {
                let k = y as int * w as int + x as int;
                vstd::arithmetic::div_mod::lemma_fundamental_div_mod_converse(
                    k, w as int, y as int, x as int,
                );
                assert(pixels@[k] == debug_pixel(*g, scan_y, cx, cy, strip_h, spans@, x as int, y as int));
            }
            x = x + 1;
        }
        proof {
            assert((y as int + 1) * w as int == y as int * w as int + w as int) by (nonlinear_arith);
        }
        y = y + 1;
    }
    let ghost pix = pixels@;
    proof {
        assert((w as int) * (strip_h as int) == (strip_h as int) * (w as int)) by (nonlinear_arith);
    }
    let r = match PixelGrid::new(w, strip_h, pixels) {
        Some(r) => r,
        None => {
            proof {
                assert(false);
            }
            PixelGrid { width: 0, height: 0, pixels: Vec::new() }
        },
    };
    proof {
        assert forall|x: int, y: int| 0 <= x < g.width && 0 <= y < strip_h
            implies r.row(y)[x] == debug_pixel(*g, scan_y, cx, cy, strip_h, spans@, x, y) by {
            let k = y * (w as int) + x;
            assert(0 <= y * (w as int) + x && (y * (w as int) + x) < (strip_h as int) * (w as int))
                by (nonlinear_arith)
                requires
                    0 <= x < w as int,
                    0 <= y < strip_h as int,
            ;
            vstd::arithmetic::div_mod::lemma_fundamental_div_mod_converse(k, w as int, y, x);
            assert(pix[k] == debug_pixel(*g, scan_y, cx, cy, strip_h, spans@, x, y));
            assert(r.row(y)[x] == r.pixels@[k]);
        }
    }
    r
}

} // verus!
