use tab_hover::color::ColorCatalog;
use tab_hover::debug::render_debug;
use tab_hover::grid::PixelGrid;
use tab_hover::scan::{detect_spans, Span};

const BG: u32 = 0x202020;
const T1: u32 = 0xEE5FB7;

fn at(g: &PixelGrid, x: u32, y: u32) -> u32 {
    g.pixels[(y * g.width + x) as usize]
}

#[test]
fn render_copies_samples_outside_annotations() {
    // Cursor off the strip, scan row outside the grid, no spans: a plain copy.
    let g = PixelGrid::new(2, 2, vec![1, 2, 3, 4]).unwrap();
    let r = render_debug(&g, 5, 0, 100, 2, &Vec::new());
    assert_eq!(r.width, 2);
    assert_eq!(r.height, 2);
    assert_eq!(r.pixels, vec![1, 2, 3, 4]);
}

#[test]
fn render_paints_black_where_capture_ends() {
    // The strip is taller than the capture: the extra row stays black.
    let g = PixelGrid::new(2, 1, vec![7, 8]).unwrap();
    let r = render_debug(&g, 5, 0, 100, 2, &Vec::new());
    assert_eq!(r.pixels, vec![7, 8, 0, 0]);
}

#[test]
fn render_draws_scan_line_cursor_and_boundaries() {
    let g = PixelGrid::new(8, 2, vec![9; 16]).unwrap();
    let spans = vec![Span { start: 7, end: 20 }];
    let r = render_debug(&g, 1, 0, 0, 2, &spans);
    // Boundary column paints over everything.
    assert_eq!(at(&r, 7, 0), 0x0000FF);
    assert_eq!(at(&r, 7, 1), 0x0000FF);
    // The cursor cross paints over the scan line.
    assert_eq!(at(&r, 0, 0), 0x00FF00);
    assert_eq!(at(&r, 5, 0), 0x00FF00);
    assert_eq!(at(&r, 0, 1), 0x00FF00);
    // The scan line covers the rest of its row.
    assert_eq!(at(&r, 6, 1), 0xFF0000);
    // Beyond the cross arm, the sample shows through.
    assert_eq!(at(&r, 6, 0), 9);
}

#[test]
fn detected_spans_feed_the_renderer() {
    let mut row = vec![BG; 10];
    for x in 2..5 {
        row[x] = T1;
    }
    let g = PixelGrid::new(10, 1, row).unwrap();
    let cat = ColorCatalog { background: BG, targets: vec![T1] };
    let spans = detect_spans(&g, &cat, 0);
    assert_eq!(spans, vec![Span { start: 2, end: 5 }]);
    let r = render_debug(&g, 5, 0, 100, 1, &spans);
    assert_eq!(at(&r, 2, 0), 0x0000FF);
    assert_eq!(at(&r, 5, 0), 0x0000FF);
    assert_eq!(at(&r, 3, 0), T1);
}
