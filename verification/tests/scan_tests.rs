use tab_hover::color::{Class, ColorCatalog};
use tab_hover::grid::PixelGrid;
use tab_hover::scan::{detect_spans, scan_row, Span};

const BG: u32 = 0x202020;
const T1: u32 = 0xEE5FB7;
const T2: u32 = 0x4A89BA;
const IGN: u32 = 0x123456;

fn catalog() -> ColorCatalog {
    ColorCatalog { background: BG, targets: vec![T1, T2] }
}

fn one_row(pixels: Vec<u32>) -> PixelGrid {
    let w = pixels.len() as u32;
    PixelGrid::new(w, 1, pixels).unwrap()
}

fn row_with_spans(width: usize, spans: &[(usize, usize, u32)]) -> Vec<u32> {
    let mut row = vec![BG; width];
    for &(start, end, color) in spans {
        for x in start..end {
            row[x] = color;
        }
    }
    row
}

#[test]
fn classifier_matches_catalog() {
    let cat = catalog();
    assert_eq!(cat.classify(BG), Class::Background);
    assert_eq!(cat.classify(T1), Class::Target);
    assert_eq!(cat.classify(T2), Class::Target);
    assert_eq!(cat.classify(IGN), Class::Ignored);
    assert_eq!(cat.classify(0), Class::Ignored);
}

#[test]
fn default_catalog_holds_shipped_palette() {
    let cat = tab_hover::color::default_catalog();
    assert_eq!(cat.background, 0x202020);
    assert_eq!(cat.targets.len(), 8);
    assert_eq!(cat.targets[0], 0xEE5FB7);
    assert_eq!(cat.targets[7], 0xC1A256);
}

#[test]
fn pack_rgb_packs_channels() {
    assert_eq!(tab_hover::color::pack_rgb(0xEE, 0x5F, 0xB7), 0xEE5FB7);
    assert_eq!(tab_hover::color::pack_rgb(0, 0, 0), 0);
    assert_eq!(tab_hover::color::pack_rgb(255, 255, 255), 0xFFFFFF);
}

#[test]
fn grid_sample_bounds() {
    let g = PixelGrid::new(2, 2, vec![1, 2, 3, 4]).unwrap();
    assert_eq!(g.sample(0, 0), Some(1));
    assert_eq!(g.sample(1, 0), Some(2));
    assert_eq!(g.sample(0, 1), Some(3));
    assert_eq!(g.sample(1, 1), Some(4));
    assert_eq!(g.sample(2, 0), None);
    assert_eq!(g.sample(0, 2), None);
}

#[test]
fn grid_rejects_wrong_length() {
    assert!(PixelGrid::new(2, 2, vec![1, 2, 3]).is_none());
}

#[test]
fn background_only_row_yields_zero_everywhere() {
    let g = one_row(vec![BG; 100]);
    let cat = catalog();
    for cx in [0u32, 1, 50, 99, 100, 200] {
        assert_eq!(scan_row(&g, &cat, 0, cx, 2), 0);
    }
}

#[test]
fn single_span_cursor_inside() {
    let g = one_row(row_with_spans(130, &[(10, 50, T1)]));
    assert_eq!(scan_row(&g, &catalog(), 0, 30, 2), 1);
}

#[test]
fn two_spans_cursor_in_second() {
    let g = one_row(row_with_spans(130, &[(10, 50, T1), (60, 120, T2)]));
    assert_eq!(scan_row(&g, &catalog(), 0, 80, 2), 2);
}

#[test]
fn two_spans_cursor_in_gap() {
    let g = one_row(row_with_spans(130, &[(10, 50, T1), (60, 120, T2)]));
    assert_eq!(scan_row(&g, &catalog(), 0, 55, 2), 0);
}

#[test]
fn open_span_at_zero_never_closing() {
    let g = one_row(vec![T1; 40]);
    assert_eq!(scan_row(&g, &catalog(), 0, 5, 2), 1);
    assert_eq!(scan_row(&g, &catalog(), 0, 39, 2), 1);
}

#[test]
fn open_span_at_zero_cursor_at_first_column() {
    // The band's first column counts as the gap before it.
    let g = one_row(vec![T1; 40]);
    assert_eq!(scan_row(&g, &catalog(), 0, 0, 2), 0);
}

#[test]
fn precheck_passes_but_cursor_in_gap() {
    // Columns 50..52 are the gap; 52 is within radius 2 of the cursor at 51.
    let g = one_row(row_with_spans(100, &[(10, 50, T1), (52, 80, T2)]));
    assert_eq!(scan_row(&g, &catalog(), 0, 51, 2), 0);
}

#[test]
fn ignored_pixels_do_not_split_a_run() {
    let mut row = row_with_spans(130, &[(10, 50, T1), (60, 120, T2)]);
    for x in 20..25 {
        row[x] = IGN;
    }
    let g = one_row(row);
    assert_eq!(scan_row(&g, &catalog(), 0, 30, 2), 1);
    assert_eq!(scan_row(&g, &catalog(), 0, 40, 2), 1);
    // The second band keeps ordinal 2: the run was not split in two.
    assert_eq!(scan_row(&g, &catalog(), 0, 80, 2), 2);
}

#[test]
fn trailing_span_reaches_edge() {
    let g = one_row(row_with_spans(130, &[(100, 130, T1)]));
    assert_eq!(scan_row(&g, &catalog(), 0, 120, 2), 1);
}

#[test]
fn trailing_band_cursor_at_right_edge() {
    // The trailing band closes at the buffer's right edge; a cursor exactly
    // there sits inside it, as at any other closing column.
    let g = one_row(row_with_spans(40, &[(10, 40, T1)]));
    assert_eq!(scan_row(&g, &catalog(), 0, 40, 2), 1);
    let g = one_row(vec![T1; 40]);
    assert_eq!(scan_row(&g, &catalog(), 0, 40, 2), 1);
}

#[test]
fn scan_row_outside_grid_yields_zero() {
    let g = one_row(vec![T1; 40]);
    assert_eq!(scan_row(&g, &catalog(), 3, 5, 2), 0);
}

#[test]
fn mixed_targets_in_one_run_stay_one_band() {
    let mut row = row_with_spans(100, &[(10, 50, T1)]);
    for x in 30..40 {
        row[x] = T2;
    }
    let g = one_row(row);
    assert_eq!(scan_row(&g, &catalog(), 0, 45, 2), 1);
}

#[test]
fn detect_spans_finds_bands_in_order() {
    let g = one_row(row_with_spans(130, &[(10, 50, T1), (60, 120, T2)]));
    let spans = detect_spans(&g, &catalog(), 0);
    assert_eq!(spans.len(), 2);
    assert_eq!(spans[0], Span { start: 10, end: 50 });
    assert_eq!(spans[1], Span { start: 60, end: 120 });
}

#[test]
fn detect_spans_closes_trailing_band_at_edge() {
    let g = one_row(row_with_spans(50, &[(40, 50, T1)]));
    let spans = detect_spans(&g, &catalog(), 0);
    assert_eq!(spans.len(), 1);
    assert_eq!(spans[0], Span { start: 40, end: 50 });
}
