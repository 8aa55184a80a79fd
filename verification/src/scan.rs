//! The horizontal scan state machine: a cheap proximity pre-check around the
//! cursor, then one deterministic left-to-right pass over the scan row that
//! discovers tab-group bands and decides which one, if any, the cursor is in.

use vstd::prelude::*;
use crate::color::{Class, ColorCatalog};
use crate::grid::PixelGrid;

verus! {

/// Where the scan stands while walking the row: outside any band, or inside
/// the band that opened at the recorded column.
#[derive(Clone, Copy, PartialEq, Eq, Structural, Debug)]
pub enum ScanState {
    NotInGroup,
    InGroup(u32),
}

/// The rest of the full scan, from column `x` with `ord` groups discovered so
/// far, inside a band exactly when `in_group`. A transition into a band fires
/// only on Background-to-Target between relevant (non-Ignored) samples, and a
/// transition out only on Target-to-Background; being inside a band coincides
/// with the last relevant sample having been Target. The scan answers early:
/// 0 when a band opens at or past the cursor (the cursor sits in the gap
/// before it), the current ordinal when a band closes at or past the cursor
/// (the cursor sits inside it), and at the end of the row the ordinal of a
/// still-open band, which closes at the row's right edge: as with any other
/// closing column, a cursor at or before that edge sits inside it.
pub open spec fn scan_from(row: Seq<u32>, cat: ColorCatalog, cursor_x: int, x: int, ord: nat, in_group: bool) -> nat
    decreases row.len() - x,
{
    if x < 0 || x >= row.len() {
        if in_group && 0 <= cursor_x <= row.len() {
            ord
        } else {
            0
        }
    } else {
        let c = cat.class_of(row[x]);
        if c == Class::Target && !in_group {
            if cursor_x <= x {
                0
            } else {
                scan_from(row, cat, cursor_x, x + 1, (ord + 1) as nat, true)
            }
        } else if c == Class::Background && in_group {
            if cursor_x <= x {
                ord
            } else {
                scan_from(row, cat, cursor_x, x + 1, ord, false)
            }
        } else {
            scan_from(row, cat, cursor_x, x + 1, ord, in_group)
        }
    }
}

/// Some sample within `radius` columns of the cursor, on the row, is a band
/// color: the cheap pre-check that gates the full scan.
pub open spec fn proximity_hit(row: Seq<u32>, cat: ColorCatalog, cursor_x: int, radius: int) -> bool {
    exists|i: int|
        cursor_x - radius <= i <= cursor_x + radius && 0 <= i < row.len()
            && cat.class_of(#[trigger] row[i]) == Class::Target
}

/// What the scanner returns for a row: 0 when the pre-check finds no band
/// color near the cursor, else the full scan's answer.
pub open spec fn scan_spec(row: Seq<u32>, cat: ColorCatalog, cursor_x: int, radius: int) -> nat {
    if proximity_hit(row, cat, cursor_x, radius) {
        scan_from(row, cat, cursor_x, 0, 0, false)
    } else {
        0
    }
}

/// Scans the grid's row `scan_y` and returns the 1-based ordinal of the band
/// the cursor column rests in, or 0 when it rests over none. A scan row
/// outside the grid sees no samples and yields 0.
pub fn scan_row(grid: &PixelGrid, cat: &ColorCatalog, scan_y: u32, cursor_x: u32, radius: u32) -> (r: u32)
    requires
        grid.wf(),
    ensures
        scan_y < grid.height ==> r == scan_spec(grid.row(scan_y as int), *cat, cursor_x as int, radius as int),
        scan_y >= grid.height ==> r == 0,
{
    if scan_y >= grid.height {
        return 0;
    }
    let ghost row = grid.row(scan_y as int);

    // Proximity pre-check: look for a band color within `radius` columns of
    // the cursor on the scan row.
    let lo: i64 = cursor_x as i64 - radius as i64;
    let hi: i64 = cursor_x as i64 + radius as i64;
    let mut t: i64 = lo;
    let mut found = false;
    while t <= hi
        invariant
            grid.wf(),
            scan_y < grid.height,
            row == grid.row(scan_y as int),
            lo == cursor_x as int - radius as int,
            hi == cursor_x as int + radius as int,
            lo <= t <= hi + 1,
            found ==> proximity_hit(row, *cat, cursor_x as int, radius as int),
            !found ==> forall|k: int|
                lo <= k < t ==> !(0 <= k < row.len() && cat.class_of(#[trigger] row[k]) == Class::Target),
        decreases hi + 1 - t,
    {
        if !found && 0 <= t && t < grid.width as i64 {
            let s = grid.at(t as u32, scan_y);
            if cat.classify(s) == Class::Target {
                found = true;
                proof {
                    assert(cat.class_of(row[t as int]) == Class::Target);
                }
            }
        }
        t = t + 1;
    }
    if !found {
        proof {
            assert(!proximity_hit(row, *cat, cursor_x as int, radius as int));
        }
        return 0;
    }

    // Full scan: walk the row left to right, tracking the state machine.
    let w = grid.width;
    let mut x: u32 = 0;
    let mut ord: u32 = 0;
    let mut state = ScanState::NotInGroup;
    while x < w
        invariant
            grid.wf(),
            scan_y < grid.height,
            row == grid.row(scan_y as int),
            w == grid.width,
            row.len() == w,
            0 <= x <= w,
            ord <= x,
            (state is InGroup) ==> ord >= 1,
            proximity_hit(row, *cat, cursor_x as int, radius as int),
            scan_from(row, *cat, cursor_x as int, 0, 0, false)
                == scan_from(row, *cat, cursor_x as int, x as int, ord as nat, state is InGroup),
        decreases w - x,
    {
        let s = grid.at(x, scan_y);
        let c = cat.classify(s);
        proof {
            assert(row[x as int] == s);
        }
        if c == Class::Target && !(matches!(state, ScanState::InGroup(_))) {
            // A band opens here. The cursor at or before its first column
            // means the cursor sits in the gap before it.
            if cursor_x <= x {
                return 0;
            }
            ord = ord + 1;
            state = ScanState::InGroup(x);
        } else if c == Class::Background && matches!(state, ScanState::InGroup(_)) {
            // The band closes here; a cursor at or before the closing column
            // sits inside it.
            if cursor_x <= x {
                return ord;
            }
            state = ScanState::NotInGroup;
        }
        x = x + 1;
    }
    if matches!(state, ScanState::InGroup(_)) && cursor_x <= w {
        ord
    } else {
        0
    }
}

/// A detected band: the half-open column range it covers.
#[derive(Clone, Copy, PartialEq, Eq, Structural, Debug)]
pub struct Span {
    pub start: u32,
    pub end: u32,
}

/// The bands the full scan discovers from column `x` on, given the band
/// already open at `open`: closed at the first relevant Background column
/// after they open, or at the row's right edge.
pub open spec fn spans_from(row: Seq<u32>, cat: ColorCatalog, x: int, open: Option<int>) -> Seq<(int, int)>
    decreases row.len() - x,
{
    if x < 0 || x >= row.len() {
        match open {
            Some(s) => seq![(s, row.len() as int)],
            None => seq![],
        }
    } else {
        let c = cat.class_of(row[x]);
        match open {
            None => if c == Class::Target {
                spans_from(row, cat, x + 1, Some(x))
            } else {
                spans_from(row, cat, x + 1, None)
            },
            Some(s) => if c == Class::Background {
                seq![(s, x)] + spans_from(row, cat, x + 1, None)
            } else {
                spans_from(row, cat, x + 1, open)
            },
        }
    }
}

/// The spans a vector holds, as column-range pairs.
pub open spec fn spans_view(v: Seq<Span>) -> Seq<(int, int)> {
    v.map_values(|s: Span| (s.start as int, s.end as int))
}

/// Walks the grid's row `scan_y` and collects every band it shows, in
/// discovery order, for the debug rendering. A scan row outside the grid
/// shows no bands.
pub fn detect_spans(grid: &PixelGrid, cat: &ColorCatalog, scan_y: u32) -> (r: Vec<Span>)
    requires
        grid.wf(),
    ensures
        scan_y < grid.height ==> spans_view(r@) == spans_from(grid.row(scan_y as int), *cat, 0, None),
        scan_y >= grid.height ==> r@.len() == 0,
        forall|k: int| 0 <= k < r@.len() ==> (#[trigger] r@[k]).start < r@[k].end,
{
    let mut r: Vec<Span> = Vec::new();
    if scan_y >= grid.height {
        return r;
    }
    let ghost row = grid.row(scan_y as int);
    let w = grid.width;
    let mut x: u32 = 0;
    let mut state = ScanState::NotInGroup;
    while x < w
        invariant
            grid.wf(),
            scan_y < grid.height,
            row == grid.row(scan_y as int),
            w == grid.width,
            row.len() == w,
            0 <= x <= w,
            state matches ScanState::InGroup(s) ==> s < x,
            spans_from(row, *cat, 0, None) == spans_view(r@) + spans_from(
                row,
                *cat,
                x as int,
                match state {
                    ScanState::NotInGroup => None::<int>,
                    ScanState::InGroup(s) => Some(s as int),
                },
            ),
            forall|k: int| 0 <= k < r@.len() ==> (#[trigger] r@[k]).start < r@[k].end,
        decreases w - x,
    {
        let s = grid.at(x, scan_y);
        let c = cat.classify(s);
        proof {
            assert(row[x as int] == s);
        }
        match state {
            ScanState::NotInGroup => {
                if c == Class::Target {
                    state = ScanState::InGroup(x);
                }
            },
            ScanState::InGroup(start) => {
                if c == Class::Background {
                    r.push(Span { start, end: x });
                    state = ScanState::NotInGroup;
                    proof {
                        assert(spans_view(r@) =~= spans_view(r@.drop_last()).push(
                            (start as int, x as int),
                        ));
                        assert(spans_view(r@.drop_last()) + (seq![(start as int, x as int)]
                            + spans_from(row, *cat, x as int + 1, None)) =~= spans_view(r@)
                            + spans_from(row, *cat, x as int + 1, None));
                    }
                }
            },
        }
        x = x + 1;
    }
    match state {
        ScanState::InGroup(start) => {
            r.push(Span { start, end: w });
            proof {
                assert(spans_view(r@) =~= spans_view(r@.drop_last()).push((start as int, w as int)));
                assert(spans_view(r@.drop_last()) + seq![(start as int, w as int)] =~= spans_view(r@));
            }
        },
        ScanState::NotInGroup => {
            proof {
                assert(spans_view(r@) + Seq::<(int, int)>::empty() =~= spans_view(r@));
            }
        },
    }
    r
}

/// A strip whose scan row shows no band color anywhere yields 0 for every
/// cursor column: the pre-check finds nothing, and the full scan, had it run,
/// would discover no band either.
pub proof fn lemma_no_target_row_scans_zero(row: Seq<u32>, cat: ColorCatalog, cursor_x: int, radius: int)
    requires
        forall|i: int| 0 <= i < row.len() ==> cat.class_of(#[trigger] row[i]) != Class::Target,
    ensures
        scan_spec(row, cat, cursor_x, radius) == 0,
        scan_from(row, cat, cursor_x, 0, 0, false) == 0,
{
    assert(!proximity_hit(row, cat, cursor_x, radius));
    lemma_no_target_scan_from(row, cat, cursor_x, 0);
}

proof fn lemma_no_target_scan_from(row: Seq<u32>, cat: ColorCatalog, cursor_x: int, x: int)
    requires
        0 <= x <= row.len(),
        forall|i: int| x <= i < row.len() ==> cat.class_of(#[trigger] row[i]) != Class::Target,
    ensures
        scan_from(row, cat, cursor_x, x, 0, false) == 0,
    decreases row.len() - x,
{
    if x < row.len() {
        lemma_no_target_scan_from(row, cat, cursor_x, x + 1);
    }
}

/// A band open from column 0 that never closes spans the whole row; a
/// cursor anywhere past its first column, up to and including the right
/// edge where it closes, is inside it, and its ordinal is 1. (A cursor
/// exactly at column 0 sits at the band's first column, which the scan
/// treats as the gap before the band and answers 0.)
pub proof fn lemma_open_band_spans_row(row: Seq<u32>, cat: ColorCatalog, cursor_x: int)
    requires
        row.len() > 0,
        cat.class_of(row[0]) == Class::Target,
        forall|i: int| 0 <= i < row.len() ==> cat.class_of(#[trigger] row[i]) != Class::Background,
        1 <= cursor_x <= row.len(),
    ensures
        scan_from(row, cat, cursor_x, 0, 0, false) == 1,
{
    lemma_stays_in_group(row, cat, cursor_x, 1, 1);
}

/// The same band, through the whole scanner: on a row colored with band
/// color from edge to edge the pre-check hits at the cursor itself, and the
/// scan answers 1 for every cursor column past the first.
pub proof fn lemma_open_band_whole_scan(row: Seq<u32>, cat: ColorCatalog, cursor_x: int, radius: int)
    requires
        forall|i: int| 0 <= i < row.len() ==> cat.class_of(#[trigger] row[i]) == Class::Target,
        1 <= cursor_x < row.len(),
        radius >= 0,
    ensures
        scan_spec(row, cat, cursor_x, radius) == 1,
{
    assert(cat.class_of(row[cursor_x]) == Class::Target);
    assert(proximity_hit(row, cat, cursor_x, radius));
    lemma_open_band_spans_row(row, cat, cursor_x);
}

proof fn lemma_stays_in_group(row: Seq<u32>, cat: ColorCatalog, cursor_x: int, x: int, ord: nat)
    requires
        0 <= x <= row.len(),
        forall|i: int| x <= i < row.len() ==> cat.class_of(#[trigger] row[i]) != Class::Background,
        0 <= cursor_x <= row.len(),
    ensures
        scan_from(row, cat, cursor_x, x, ord, true) == ord,
    decreases row.len() - x,
{
    if x < row.len() {
        lemma_stays_in_group(row, cat, cursor_x, x + 1, ord);
    }
}

/// Two rows that agree from column `x` on scan alike from there.
proof fn lemma_scan_agree(r1: Seq<u32>, r2: Seq<u32>, cat: ColorCatalog, cursor_x: int, x: int, ord: nat, in_group: bool)
    requires
        r1.len() == r2.len(),
        0 <= x,
        forall|k: int| x <= k < r1.len() ==> r1[k] == #[trigger] r2[k],
    ensures
        scan_from(r1, cat, cursor_x, x, ord, in_group) == scan_from(r2, cat, cursor_x, x, ord, in_group),
    decreases r1.len() - x,
{
    if x < r1.len() {
        let c = cat.class_of(r1[x]);
        if c == Class::Target && !in_group {
            if cursor_x > x {
                lemma_scan_agree(r1, r2, cat, cursor_x, x + 1, (ord + 1) as nat, true);
            }
        } else if c == Class::Background && in_group {
            if cursor_x > x {
                lemma_scan_agree(r1, r2, cat, cursor_x, x + 1, ord, false);
            }
        } else {
            lemma_scan_agree(r1, r2, cat, cursor_x, x + 1, ord, in_group);
        }
    }
}

proof fn lemma_ignored_from(r1: Seq<u32>, r2: Seq<u32>, cat: ColorCatalog, cursor_x: int, x: int, ord: nat, in_group: bool, i: int)
    requires
        r1.len() == r2.len(),
        1 <= i < r1.len(),
        0 <= x <= i - 1,
        forall|k: int| 0 <= k < r1.len() && k != i ==> r1[k] == #[trigger] r2[k],
        cat.class_of(r1[i - 1]) == Class::Target,
        cat.class_of(r1[i]) == Class::Target,
        cat.class_of(r2[i]) == Class::Ignored,
    ensures
        scan_from(r1, cat, cursor_x, x, ord, in_group) == scan_from(r2, cat, cursor_x, x, ord, in_group),
    decreases i - x,
{
    if x < i - 1 {
        let c = cat.class_of(r1[x]);
        if c == Class::Target && !in_group {
            if cursor_x > x {
                lemma_ignored_from(r1, r2, cat, cursor_x, x + 1, (ord + 1) as nat, true, i);
            }
        } else if c == Class::Background && in_group {
            if cursor_x > x {
                lemma_ignored_from(r1, r2, cat, cursor_x, x + 1, ord, false, i);
            }
        } else {
            lemma_ignored_from(r1, r2, cat, cursor_x, x + 1, ord, in_group, i);
        }
    } else {
        // x == i - 1: a Target column; past it the machine is inside a band,
        // so at column i the Target in r1 and the Ignored in r2 both leave
        // the state untouched, and the rows agree afterwards.
        if !in_group {
            if cursor_x > x {
                assert(scan_from(r1, cat, cursor_x, x, ord, in_group)
                    == scan_from(r1, cat, cursor_x, i, (ord + 1) as nat, true));
                assert(scan_from(r1, cat, cursor_x, i, (ord + 1) as nat, true)
                    == scan_from(r1, cat, cursor_x, i + 1, (ord + 1) as nat, true));
                assert(scan_from(r2, cat, cursor_x, i, (ord + 1) as nat, true)
                    == scan_from(r2, cat, cursor_x, i + 1, (ord + 1) as nat, true));
                lemma_scan_agree(r1, r2, cat, cursor_x, i + 1, (ord + 1) as nat, true);
            }
        } else {
            assert(scan_from(r1, cat, cursor_x, i, ord, true)
                == scan_from(r1, cat, cursor_x, i + 1, ord, true));
            assert(scan_from(r2, cat, cursor_x, i, ord, true)
                == scan_from(r2, cat, cursor_x, i + 1, ord, true));
            lemma_scan_agree(r1, r2, cat, cursor_x, i + 1, ord, true);
        }
    }
}

/// An off-catalog (Ignored) sample standing in for a band color inside a run
/// of band color neither splits the run into two bands nor closes it early:
/// for every cursor column, replacing such an interior sample with any
/// Ignored one leaves the full scan's answer unchanged.
pub proof fn lemma_ignored_does_not_split(row: Seq<u32>, cat: ColorCatalog, cursor_x: int, i: int, c_ign: u32)
    requires
        1 <= i < row.len(),
        cat.class_of(row[i - 1]) == Class::Target,
        cat.class_of(row[i]) == Class::Target,
        cat.class_of(c_ign) == Class::Ignored,
    ensures
        scan_from(row.update(i, c_ign), cat, cursor_x, 0, 0, false)
            == scan_from(row, cat, cursor_x, 0, 0, false),
{
    let r2 = row.update(i, c_ign);
    assert(r2.len() == row.len());
    assert(r2[i] == c_ign);
    assert(forall|k: int| 0 <= k < row.len() && k != i ==> row[k] == #[trigger] r2[k]);
    lemma_ignored_from(row, r2, cat, cursor_x, 0, 0, false, i);
}

} // verus!
