//! Proportional geometry: splitting a rectangle into bands whose extents are
//! given as percentages, and the per-cell layout of a whole grid.
//!
//! The splitting rule is the one the render contract fixes: band `i` gets
//! `floor(total * weight_i / 100)` of the split axis, bands are adjacent,
//! and any remainder past the last band is dropped.

use vstd::arithmetic::div_mod::{
    lemma_div_is_ordered, lemma_div_multiples_vanish, lemma_div_pos_is_pos,
    lemma_fundamental_div_mod, lemma_mod_bound,
};
use vstd::arithmetic::mul::{
    lemma_mul_inequality, lemma_mul_is_distributive_add, lemma_mul_nonnegative,
};
use vstd::prelude::*;

use crate::grid::GridV;
use crate::strip::StripV;

verus! {

/// A rectangle in terminal cells.  Well-formedness keeps the far edges
/// representable, so sub-rectangle arithmetic never overflows.
#[derive(Clone, Copy, PartialEq, Eq, Structural, Debug)]
pub struct Rect {
    pub x: u16,
    pub y: u16,
    pub width: u16,
    pub height: u16,
}

impl Rect {
    /// Both far edges of the rectangle still fit in a `u16`.
    pub open spec fn wf(self) -> bool {
        self.x + self.width <= u16::MAX && self.y + self.height <= u16::MAX
    }
}

/// The axis along which a rectangle is split.
#[derive(Clone, Copy, PartialEq, Eq, Structural, Debug)]
pub enum Direction {
    Horizontal,
    Vertical,
}

/// One rendered cell: which column and row of the grid it is, the rectangle
/// it occupies, and whether it is the focused cell.
#[derive(Clone, Copy, PartialEq, Eq, Structural, Debug)]
pub struct CellGeom {
    pub col: usize,
    pub row: usize,
    pub rect: Rect,
    pub focused: bool,
}

/// `percent` percent of `total`, rounded down.
pub open spec fn scaled(total: int, percent: int) -> int {
    total * percent / 100
}

/// The sum of the first `n` weights.
pub open spec fn wsum(ws: Seq<u16>, n: int) -> int
    decreases n,
{
    if n <= 0 {
        0
    } else {
        wsum(ws, n - 1) + ws[n - 1]
    }
}

/// Where band `n` starts along the split axis: the scaled extents of all
/// earlier bands, added up.
pub open spec fn offset_sum(total: int, ws: Seq<u16>, n: int) -> int
    decreases n,
{
    if n <= 0 {
        0
    } else {
        offset_sum(total, ws, n - 1) + scaled(total, ws[n - 1] as int)
    }
}

/// Band `i` of `area` split along `dir` by the weights `ws`.
pub open spec fn chunk_rect(area: Rect, ws: Seq<u16>, dir: Direction, i: int) -> Rect {
    match dir {
        Direction::Horizontal => Rect {
            x: (area.x + offset_sum(area.width as int, ws, i)) as u16,
            y: area.y,
            width: scaled(area.width as int, ws[i] as int) as u16,
            height: area.height,
        },
        Direction::Vertical => Rect {
            x: area.x,
            y: (area.y + offset_sum(area.height as int, ws, i)) as u16,
            width: area.width,
            height: scaled(area.height as int, ws[i] as int) as u16,
        },
    }
}

proof fn lemma_wsum_nonneg(ws: Seq<u16>, n: int)
    ensures
        wsum(ws, n) >= 0,
    decreases n,
{
    if n > 0 {
        lemma_wsum_nonneg(ws, n - 1);
    }
}

proof fn lemma_wsum_mono(ws: Seq<u16>, m: int, n: int)
    requires
        m <= n,
    ensures
        wsum(ws, m) <= wsum(ws, n),
    decreases n - m,
{
    if m < n {
        lemma_wsum_mono(ws, m, n - 1);
    }
}

/// Rounding down loses at most the fraction: two scaled parts never exceed
/// the scaled whole.
proof fn lemma_scaled_superadd(total: int, a: int, b: int)
    requires
        total >= 0,
        a >= 0,
        b >= 0,
    ensures
        scaled(total, a) + scaled(total, b) <= scaled(total, a + b),
{
    let p = total * a;
    let q = total * b;
    lemma_mul_is_distributive_add(total, a, b);
    lemma_mul_nonnegative(total, a);
    lemma_mul_nonnegative(total, b);
    lemma_fundamental_div_mod(p, 100);
    lemma_fundamental_div_mod(q, 100);
    lemma_mod_bound(p, 100);
    lemma_mod_bound(q, 100);
    assert(p + q >= 100 * (p / 100 + q / 100));
    lemma_div_is_ordered(100 * (p / 100 + q / 100), p + q, 100);
    lemma_div_multiples_vanish(p / 100 + q / 100, 100);
}

/// A scaled part of `total` stays between 0 and `total` while the percentage
/// stays between 0 and 100.
proof fn lemma_scaled_le_total(total: int, p: int)
    requires
        total >= 0,
        0 <= p <= 100,
    ensures
        0 <= scaled(total, p) <= total,
{
    lemma_mul_nonnegative(total, p);
    lemma_div_pos_is_pos(total * p, 100);
    lemma_mul_inequality(p, 100, total);
    lemma_div_is_ordered(total * p, total * 100, 100);
    lemma_div_multiples_vanish(total, 100);
    assert(total * 100 == 100 * total);
}

/// Percentages scale monotonically.
proof fn lemma_scaled_mono(total: int, a: int, b: int)
    requires
        total >= 0,
        a <= b,
    ensures
        scaled(total, a) <= scaled(total, b),
{
    lemma_mul_inequality(a, b, total);
    lemma_div_is_ordered(total * a, total * b, 100);
    assert(total * a == a * total && total * b == b * total);
}

/// Band starts never pass the scaled prefix sum of the weights.
proof fn lemma_offset_le_scaled(total: int, ws: Seq<u16>, n: int)
    requires
        total >= 0,
    ensures
        0 <= offset_sum(total, ws, n) <= scaled(total, wsum(ws, n)),
    decreases n,
{
    if n <= 0 {
        assert(scaled(total, wsum(ws, n)) == 0);
    } else {
        lemma_offset_le_scaled(total, ws, n - 1);
        lemma_wsum_nonneg(ws, n - 1);
        lemma_scaled_superadd(total, wsum(ws, n - 1), ws[n - 1] as int);
        lemma_scaled_le_total(total, 0);
        assert(scaled(total, ws[n - 1] as int) >= 0) by {
            lemma_mul_nonnegative(total, ws[n - 1] as int);
            lemma_div_pos_is_pos(total * (ws[n - 1] as int), 100);
        }
    }
}

/// Every band of a split lies inside its area along the split axis: the
/// start of band `i` plus its extent never passes `total`, as long as the
/// weights sum to at most 100.
proof fn lemma_band_within(total: int, ws: Seq<u16>, i: int)
    requires
        total >= 0,
        0 <= i < ws.len(),
        wsum(ws, ws.len() as int) <= 100,
    ensures
        0 <= offset_sum(total, ws, i),
        offset_sum(total, ws, i) + scaled(total, ws[i] as int) <= total,
        0 <= scaled(total, ws[i] as int) <= total,
{
    lemma_offset_le_scaled(total, ws, i + 1);
    lemma_wsum_mono(ws, i + 1, ws.len() as int);
    lemma_wsum_nonneg(ws, i + 1);
    lemma_scaled_mono(total, wsum(ws, i + 1), 100);
    lemma_scaled_le_total(total, 100);
    lemma_offset_le_scaled(total, ws, i);
    lemma_wsum_nonneg(ws, i);
    assert(offset_sum(total, ws, i + 1) == offset_sum(total, ws, i) + scaled(
        total,
        ws[i] as int,
    ));
    lemma_wsum_mono(ws, 0, i);
    assert(ws[i] as int <= wsum(ws, i + 1));
    lemma_scaled_mono(total, 0, ws[i] as int);
    lemma_scaled_mono(total, ws[i] as int, 100);
    assert(scaled(total, 0) == 0);
}

/// Splits `area` along `dir` into one band per weight.  Band `i` starts
/// where the scaled extents of the earlier bands end and its extent is
/// `floor(total * ws[i] / 100)` of the split axis; the cross axis is kept
/// whole.  Any remainder past the last band is dropped.
pub fn split_rect(area: Rect, weights: &Vec<u16>, dir: Direction) -> (chunks: Vec<Rect>)
    requires
        area.wf(),
        wsum(weights@, weights@.len() as int) <= 100,
    ensures
        chunks@.len() == weights@.len(),
        forall|i: int|
            0 <= i < weights@.len() ==> #[trigger] chunks@[i] == chunk_rect(
                area,
                weights@,
                dir,
                i,
            ),
        forall|i: int| 0 <= i < weights@.len() ==> (#[trigger] chunks@[i]).wf(),
{
    let total: u16 = match dir {
        Direction::Horizontal => area.width,
        Direction::Vertical => area.height,
    };
    let n = weights.len();
    let mut chunks: Vec<Rect> = Vec::new();
    let mut offset: u16 = 0;
    let mut i: usize = 0;
    while i < n
        invariant
            i <= n,
            n == weights@.len(),
            area.wf(),
            wsum(weights@, n as int) <= 100,
            total == (match dir {
                Direction::Horizontal => area.width,
                Direction::Vertical => area.height,
            }),
            chunks@.len() == i,
            offset as int == offset_sum(total as int, weights@, i as int),
            offset <= total,
            forall|k: int|
                0 <= k < i ==> #[trigger] chunks@[k] == chunk_rect(area, weights@, dir, k),
            forall|k: int| 0 <= k < i ==> (#[trigger] chunks@[k]).wf(),
        decreases n - i,
    {
        proof {
            lemma_band_within(total as int, weights@, i as int);
        }
        let w = weights[i];
        let cw: u16 = ((total as u32) * (w as u32) / 100) as u16;
        assert(cw as int == scaled(total as int, w as int));
        let r = match dir {
            Direction::Horizontal => Rect {
                x: area.x + offset,
                y: area.y,
                width: cw,
                height: area.height,
            },
            Direction::Vertical => Rect {
                x: area.x,
                y: area.y + offset,
                width: area.width,
                height: cw,
            },
        };
        assert(r == chunk_rect(area, weights@, dir, i as int));
        chunks.push(r);
        offset = offset + cw;
        i = i + 1;
    }
    chunks
}

/// The percentage every one of `n` equal bands gets: `floor(100 / n)`.
pub open spec fn eq_weight(n: int) -> int {
    100int / n
}

proof fn lemma_wsum_const(ws: Seq<u16>, w: u16, n: int)
    requires
        0 <= n <= ws.len(),
        forall|i: int| 0 <= i < n ==> ws[i] == w,
    ensures
        wsum(ws, n) == n * w,
    decreases n,
{
    if n == 0 {
        assert(n * w == 0) by (nonlinear_arith)
            requires
                n == 0,
        ;
    } else {
        lemma_wsum_const(ws, w, n - 1);
        assert(ws[n - 1] == w);
        assert(n * w == (n - 1) * w + w) by (nonlinear_arith);
        assert(wsum(ws, n) == wsum(ws, n - 1) + ws[n - 1]);
    }
}

proof fn lemma_offset_const(total: int, ws: Seq<u16>, w: u16, n: int)
    requires
        0 <= n <= ws.len(),
        forall|i: int| 0 <= i < n ==> ws[i] == w,
    ensures
        offset_sum(total, ws, n) == n * scaled(total, w as int),
    decreases n,
{
    let s = scaled(total, w as int);
    if n == 0 {
        assert(n * s == 0) by (nonlinear_arith)
            requires
                n == 0,
        ;
    } else {
        lemma_offset_const(total, ws, w, n - 1);
        assert(ws[n - 1] == w);
        assert(n * s == (n - 1) * s + s) by (nonlinear_arith);
        assert(offset_sum(total, ws, n) == offset_sum(total, ws, n - 1) + scaled(
            total,
            ws[n - 1] as int,
        ));
    }
}

/// `n` equal weights of `floor(100 / n)` sum to at most 100.
proof fn lemma_eq_weight_sum(n: int)
    requires
        n >= 1,
    ensures
        0 <= n * eq_weight(n) <= 100,
        0 <= eq_weight(n) <= 100,
{
    lemma_fundamental_div_mod(100, n);
    lemma_mod_bound(100, n);
    lemma_div_pos_is_pos(100, n);
    lemma_div_is_ordered(100, 100 * n, n);
    lemma_mul_inequality(1, n, 100);
    lemma_div_multiples_vanish(100, n);
    assert(100 * n == n * 100);
}

/// One weight of `floor(100 / n)` per band, for `n` equal bands.
pub fn equal_weights(n: usize) -> (ws: Vec<u16>)
    requires
        n > 0,
    ensures
        ws@.len() == n,
        forall|i: int| 0 <= i < n ==> (#[trigger] ws@[i]) as int == eq_weight(n as int),
        wsum(ws@, n as int) <= 100,
{
    let w: u16 = (100 / n) as u16;
    proof {
        lemma_eq_weight_sum(n as int);
    }
    let mut ws: Vec<u16> = Vec::new();
    let mut i: usize = 0;
    while i < n
        invariant
            i <= n,
            w as int == eq_weight(n as int),
            ws@.len() == i,
            forall|k: int| 0 <= k < i ==> (#[trigger] ws@[k]) == w,
        decreases n - i,
    {
        ws.push(w);
        i = i + 1;
    }
    proof {
        lemma_wsum_const(ws@, w, n as int);
        lemma_eq_weight_sum(n as int);
    }
    ws
}

/// Partition law along the split axis: consecutive bands are adjacent (each
/// starts exactly where the previous one ends) and the last band ends at or
/// before the edge of the area.
pub proof fn lemma_split_partition(area: Rect, ws: Seq<u16>, dir: Direction)
    requires
        area.wf(),
        wsum(ws, ws.len() as int) <= 100,
    ensures
        forall|i: int|
            0 <= i && i + 1 < ws.len() ==> match dir {
                Direction::Horizontal => (#[trigger] chunk_rect(area, ws, dir, i + 1)).x
                    == chunk_rect(area, ws, dir, i).x + chunk_rect(area, ws, dir, i).width,
                Direction::Vertical => (#[trigger] chunk_rect(area, ws, dir, i + 1)).y
                    == chunk_rect(area, ws, dir, i).y + chunk_rect(area, ws, dir, i).height,
            },
        forall|i: int|
            0 <= i < ws.len() ==> match dir {
                Direction::Horizontal => (#[trigger] chunk_rect(area, ws, dir, i)).x
                    + chunk_rect(area, ws, dir, i).width <= area.x + area.width,
                Direction::Vertical => (#[trigger] chunk_rect(area, ws, dir, i)).y
                    + chunk_rect(area, ws, dir, i).height <= area.y + area.height,
            },
{
    let total: int = match dir {
        Direction::Horizontal => area.width as int,
        Direction::Vertical => area.height as int,
    };
    assert forall|i: int| 0 <= i < ws.len() implies {
        &&& 0 <= offset_sum(total, ws, i)
        &&& offset_sum(total, ws, i) + scaled(total, ws[i] as int) <= total
        &&& 0 <= scaled(total, ws[i] as int)
    } by {
        lemma_band_within(total, ws, i);
    }
}

/// The vertical band of column `i` when `area` is split into `ncols` equal
/// columns: every band is `floor(100 / ncols)` percent of the width, bands
/// are adjacent, and each spans the full height.
pub open spec fn col_band(area: Rect, ncols: int, i: int) -> Rect {
    Rect {
        x: (area.x + i * scaled(area.width as int, eq_weight(ncols))) as u16,
        y: area.y,
        width: scaled(area.width as int, eq_weight(ncols)) as u16,
        height: area.height,
    }
}

/// The cell of row `j` within column `i`: the column band, split into
/// `nrows` equal rows of `floor(100 / nrows)` percent of the height each.
pub open spec fn cell_box(area: Rect, ncols: int, i: int, nrows: int, j: int) -> Rect {
    let band = col_band(area, ncols, i);
    Rect {
        x: band.x,
        y: (band.y + j * scaled(band.height as int, eq_weight(nrows))) as u16,
        width: band.width,
        height: scaled(area.height as int, eq_weight(nrows)) as u16,
    }
}

/// With equal weights, band `i` of a horizontal split is the column band.
pub(crate) proof fn lemma_chunk_col_band(area: Rect, ws: Seq<u16>, ncols: int, i: int)
    requires
        ncols >= 1,
        ws.len() == ncols,
        0 <= i < ncols,
        forall|k: int| 0 <= k < ncols ==> (#[trigger] ws[k]) as int == eq_weight(ncols),
    ensures
        chunk_rect(area, ws, Direction::Horizontal, i) == col_band(area, ncols, i),
{
    let w = ws[i];
    assert(forall|k: int| 0 <= k < i ==> #[trigger] ws[k] == w);
    lemma_offset_const(area.width as int, ws, w, i);
}

/// With equal weights, band `j` of a vertical split of column band `i` is
/// the cell box of row `j`.
pub(crate) proof fn lemma_chunk_cell_box(
    area: Rect,
    ncols: int,
    i: int,
    rws: Seq<u16>,
    nrows: int,
    j: int,
)
    requires
        ncols >= 1,
        0 <= i < ncols,
        nrows >= 1,
        rws.len() == nrows,
        0 <= j < nrows,
        forall|k: int| 0 <= k < nrows ==> (#[trigger] rws[k]) as int == eq_weight(nrows),
    ensures
        chunk_rect(col_band(area, ncols, i), rws, Direction::Vertical, j) == cell_box(
            area,
            ncols,
            i,
            nrows,
            j,
        ),
{
    let w = rws[j];
    assert(forall|k: int| 0 <= k < j ==> #[trigger] rws[k] == w);
    lemma_offset_const(col_band(area, ncols, i).height as int, rws, w, j);
}

/// The rendered cells of one strip standing as column `i` of `ncols`:
/// one cell per pane, from top to bottom, focused exactly at the strip's
/// focused row when the column itself is the focused one.
pub open spec fn strip_cells(s: StripV, area: Rect, ncols: int, i: int, focused_col: bool) -> Seq<
    CellGeom,
> {
    Seq::new(
        s.panes.len(),
        |j: int|
            CellGeom {
                col: i as usize,
                row: j as usize,
                rect: cell_box(area, ncols, i, s.panes.len() as int, j),
                focused: focused_col && j == s.focus,
            },
    )
}

/// The cells of the first `n` columns of the grid, in column-major order.
pub open spec fn grid_cells_upto(g: GridV, area: Rect, n: int) -> Seq<CellGeom>
    decreases n,
{
    if n <= 0 {
        Seq::empty()
    } else {
        grid_cells_upto(g, area, n - 1) + strip_cells(
            g.strips[n - 1],
            area,
            g.strips.len() as int,
            n - 1,
            g.focus == n - 1,
        )
    }
}

/// Every rendered cell of the grid, in column-major order: the workspace
/// area is partitioned into equal-width columns, each column into
/// equal-height cells, and exactly the cell at the grid's column and row
/// focus carries the focus flag.
pub open spec fn grid_cells(g: GridV, area: Rect) -> Seq<CellGeom> {
    grid_cells_upto(g, area, g.strips.len() as int)
}

/// How many panes the first `n` strips of the grid hold together.
pub open spec fn pane_count_upto(g: GridV, n: int) -> int
    decreases n,
{
    if n <= 0 {
        0
    } else {
        pane_count_upto(g, n - 1) + g.strips[n - 1].panes.len()
    }
}

proof fn lemma_grid_cells_upto_len(g: GridV, area: Rect, n: int)
    ensures
        grid_cells_upto(g, area, n).len() == pane_count_upto(g, n),
        pane_count_upto(g, n) >= 0,
    decreases n,
{
    if n > 0 {
        lemma_grid_cells_upto_len(g, area, n - 1);
    }
}

/// Partition law for the whole grid: rendering produces exactly one cell
/// per pane.
pub proof fn lemma_grid_cells_count(g: GridV, area: Rect)
    ensures
        grid_cells(g, area).len() == pane_count_upto(g, g.strips.len() as int),
{
    lemma_grid_cells_upto_len(g, area, g.strips.len() as int);
}

proof fn lemma_grid_cells_upto_indexed(g: GridV, area: Rect, n: int, i: int, j: int)
    requires
        0 <= i < n <= g.strips.len(),
        0 <= j < g.strips[i].panes.len(),
    ensures
        0 <= pane_count_upto(g, i) + j < grid_cells_upto(g, area, n).len(),
        grid_cells_upto(g, area, n)[pane_count_upto(g, i) + j] == (CellGeom {
            col: i as usize,
            row: j as usize,
            rect: cell_box(area, g.strips.len() as int, i, g.strips[i].panes.len() as int, j),
            focused: g.focus == i && j == g.strips[i].focus,
        }),
    decreases n,
{
    lemma_grid_cells_upto_len(g, area, n);
    lemma_grid_cells_upto_len(g, area, n - 1);
    lemma_grid_cells_upto_len(g, area, i);
    if i == n - 1 {
        assert(grid_cells_upto(g, area, n) == grid_cells_upto(g, area, n - 1) + strip_cells(
            g.strips[n - 1],
            area,
            g.strips.len() as int,
            n - 1,
            g.focus == n - 1,
        ));
    } else {
        lemma_grid_cells_upto_indexed(g, area, n - 1, i, j);
    }
}

/// The geometry of each cell, by its column and row: the cell of row `j` in
/// column `i` sits at the flat position `pane_count_upto(g, i) + j`, its
/// rectangle is the `j`-th equal-height row of the `i`-th equal-width
/// column band, and it is focused exactly when `i` is the focused column
/// and `j` that strip's focused row.
pub proof fn lemma_grid_cells_indexed(g: GridV, area: Rect, i: int, j: int)
    requires
        0 <= i < g.strips.len(),
        0 <= j < g.strips[i].panes.len(),
    ensures
        0 <= pane_count_upto(g, i) + j < grid_cells(g, area).len(),
        grid_cells(g, area)[pane_count_upto(g, i) + j] == (CellGeom {
            col: i as usize,
            row: j as usize,
            rect: cell_box(area, g.strips.len() as int, i, g.strips[i].panes.len() as int, j),
            focused: g.focus == i && j == g.strips[i].focus,
        }),
{
    lemma_grid_cells_upto_indexed(g, area, g.strips.len() as int, i, j);
}

} // verus!
