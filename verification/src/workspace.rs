//! A workspace (tab): a titled container holding one grid, with focus
//! passthroughs to the grid's column and row focus.

use vstd::prelude::*;

use crate::geometry::{
    chunk_rect, col_band, equal_weights, eq_weight, grid_cells, grid_cells_upto,
    lemma_chunk_cell_box, lemma_chunk_col_band, split_rect, strip_cells, CellGeom, Direction,
    Rect,
};
use crate::grid::{ColumnsState, GridV};

verus! {

/// Mathematical model of a workspace: its title and its grid.
#[verifier::ext_equal]
pub struct AppV {
    pub title: Seq<char>,
    pub grid: GridV,
}

impl AppV {
    /// A workspace is well formed while its grid is.
    pub open spec fn wf(self) -> bool {
        self.grid.wf()
    }

    /// The same workspace with its grid replaced.
    pub open spec fn with_grid(self, g: GridV) -> AppV {
        AppV { grid: g, ..self }
    }
}

/// One tab's application state: a display title and the grid of panes.
pub struct App<'a> {
    pub title: &'a str,
    pub grid: ColumnsState,
}

impl<'a> View for App<'a> {
    type V = AppV;

    open spec fn view(&self) -> AppV {
        AppV { title: self.title@, grid: self.grid@ }
    }
}

impl<'a> App<'a> {
    /// Creates a workspace with the given title and grid.
    pub fn new(title: &'a str, grid: ColumnsState) -> (r: App<'a>)
        ensures
            r@ == (AppV { title: title@, grid: grid@ }),
    {
        App { title, grid }
    }

    /// Moves the column focus one to the right, with wraparound.
    pub fn next_column(&mut self)
        requires
            old(self)@.wf(),
        ensures
            final(self)@ == old(self)@.with_grid(old(self)@.grid.focus_next()),
            final(self)@.wf(),
    {
        self.grid.next();
    }

    /// Moves the column focus one to the left, with wraparound.
    pub fn previous_column(&mut self)
        requires
            old(self)@.wf(),
        ensures
            final(self)@ == old(self)@.with_grid(old(self)@.grid.focus_prev()),
            final(self)@.wf(),
    {
        self.grid.previous();
    }

    /// Moves the row focus of the focused column one down, with wraparound.
    pub fn next_line(&mut self)
        requires
            old(self)@.wf(),
        ensures
            final(self)@ == old(self)@.with_grid(old(self)@.grid.line_next()),
            final(self)@.wf(),
    {
        let col_index = self.grid.index;
        let mut strip = self.grid.columns.remove(col_index);
        proof {
            assert(old(self)@.grid.strips[col_index as int].wf());
            assert(old(self)@.grid.strips[col_index as int] == strip@);
        }
        strip.next();
        self.grid.columns.insert(col_index, strip);
        proof {
            let f = |c: crate::strip::PluginsState| c@;
            let i = old(self).grid.index as int;
            assert(self.grid.columns@.map_values(f) =~= old(self).grid.columns@.map_values(
                f,
            ).update(i, self.grid.columns@[i]@));
            assert(self@ =~= old(self)@.with_grid(old(self)@.grid.line_next()));
        }
    }

    /// Moves the row focus of the focused column one up, with wraparound.
    pub fn previous_line(&mut self)
        requires
            old(self)@.wf(),
        ensures
            final(self)@ == old(self)@.with_grid(old(self)@.grid.line_prev()),
            final(self)@.wf(),
    {
        let col_index = self.grid.index;
        let mut strip = self.grid.columns.remove(col_index);
        proof {
            assert(old(self)@.grid.strips[col_index as int].wf());
            assert(old(self)@.grid.strips[col_index as int] == strip@);
        }
        strip.previous();
        self.grid.columns.insert(col_index, strip);
        proof {
            let f = |c: crate::strip::PluginsState| c@;
            let i = old(self).grid.index as int;
            assert(self.grid.columns@.map_values(f) =~= old(self).grid.columns@.map_values(
                f,
            ).update(i, self.grid.columns@[i]@));
            assert(self@ =~= old(self)@.with_grid(old(self)@.grid.line_prev()));
        }
    }

    /// Computes the geometry of every cell of this workspace's grid inside
    /// `area`: equal-width column bands, equal-height rows within each band,
    /// and the focus flag on exactly the focused cell.  This is the compute
    /// half of a redraw; actually painting the cells is the renderer's job.
    pub fn layout_cells(&self, area: Rect) -> (cells: Vec<CellGeom>)
        requires
            self@.wf(),
            area.wf(),
        ensures
            cells@ == grid_cells(self@.grid, area),
    {
        let ghost g = self@.grid;
        let ncols = self.grid.columns.len();
        let col_ws = equal_weights(ncols);
        let col_chunks = split_rect(area, &col_ws, Direction::Horizontal);
        let mut cells: Vec<CellGeom> = Vec::new();
        let mut i: usize = 0;
        while i < ncols
            invariant
                i <= ncols,
                ncols == self.grid.columns@.len(),
                g == self@.grid,
                g.wf(),
                area.wf(),
                col_ws@.len() == ncols,
                forall|k: int|
                    0 <= k < ncols ==> (#[trigger] col_ws@[k]) as int == eq_weight(ncols as int),
                col_chunks@.len() == ncols,
                forall|k: int|
                    0 <= k < ncols ==> #[trigger] col_chunks@[k] == chunk_rect(
                        area,
                        col_ws@,
                        Direction::Horizontal,
                        k,
                    ),
                forall|k: int| 0 <= k < ncols ==> (#[trigger] col_chunks@[k]).wf(),
                cells@ == grid_cells_upto(g, area, i as int),
            decreases ncols - i,
        {
            let strip = &self.grid.columns[i];
            proof {
                assert(g.strips[i as int] == strip@);
                assert(g.strips[i as int].wf());
                lemma_chunk_col_band(area, col_ws@, ncols as int, i as int);
            }
            let nrows = strip.plugins.len();
            let row_ws = equal_weights(nrows);
            let band = col_chunks[i];
            let row_chunks = split_rect(band, &row_ws, Direction::Vertical);
            let ghost scells = strip_cells(
                g.strips[i as int],
                area,
                ncols as int,
                i as int,
                g.focus == i as int,
            );
            let mut j: usize = 0;
            while j < nrows
                invariant
                    j <= nrows,
                    nrows == strip.plugins@.len(),
                    ncols == self.grid.columns@.len(),
                    i < ncols,
                    g == self@.grid,
                    g.wf(),
                    area.wf(),
                    g.strips[i as int] == strip@,
                    band == col_band(area, ncols as int, i as int),
                    row_ws@.len() == nrows,
                    forall|k: int|
                        0 <= k < nrows ==> (#[trigger] row_ws@[k]) as int == eq_weight(
                            nrows as int,
                        ),
                    row_chunks@.len() == nrows,
                    forall|k: int|
                        0 <= k < nrows ==> #[trigger] row_chunks@[k] == chunk_rect(
                            band,
                            row_ws@,
                            Direction::Vertical,
                            k,
                        ),
                    scells == strip_cells(
                        g.strips[i as int],
                        area,
                        ncols as int,
                        i as int,
                        g.focus == i as int,
                    ),
                    cells@ == grid_cells_upto(g, area, i as int) + scells.take(j as int),
                decreases nrows - j,
            {
                proof {
                    lemma_chunk_cell_box(
                        area,
                        ncols as int,
                        i as int,
                        row_ws@,
                        nrows as int,
                        j as int,
                    );
                }
                let focused = i == self.grid.index && j == strip.index;
                let cell = CellGeom { col: i, row: j, rect: row_chunks[j], focused };
                assert(cell == scells[j as int]);
                cells.push(cell);
                proof {
                    assert(scells.take(j + 1 as int) =~= scells.take(j as int).push(
                        scells[j as int],
                    ));
                }
                j = j + 1;
            }
            proof {
                assert(scells.take(nrows as int) =~= scells);
                assert(grid_cells_upto(g, area, i + 1 as int) == grid_cells_upto(g, area, i as int)
                    + scells);
            }
            i = i + 1;
        }
        cells
    }
}

} // verus!
