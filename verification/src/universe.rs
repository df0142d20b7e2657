//! The universe: a grid of cells that advances generation by generation.

use vstd::prelude::*;
use vstd::arithmetic::div_mod::{
    lemma_mod_add_multiples_vanish,
    lemma_mod_self_0,
    lemma_small_mod,
};
use crate::cell::{Cell, UniverseEdgeMode, UniverseError};
use crate::grid::Grid;

verus! {

/// The width of the universe that [`Universe::new`] builds.
pub const DEFAULT_WIDTH: u32 = 128;

/// The height of the universe that [`Universe::new`] builds.
pub const DEFAULT_HEIGHT: u32 = 128;

/// A grid of cells together with the rule for lookups beyond its border.
///
/// The grid has `width` rows of `height` cells each; the cell at
/// `(row, column)` is kept at place `row * height + column` of the buffer.
pub struct Universe {
    width: u32,
    height: u32,
    cells: Vec<Cell>,
    edge_mode: UniverseEdgeMode,
}

impl View for Universe {
    type V = Grid;

    closed spec fn view(&self) -> Grid {
        Grid {
            width: self.width as nat,
            height: self.height as nat,
            cells: self.cells@,
            edge_mode: self.edge_mode,
        }
    }
}

impl Universe {
    /// Every universe is a well-formed grid.
    #[verifier::type_invariant]
    pub open spec fn well_formed(&self) -> bool {
        self@.wf()
    }

    /// A universe of the default size, 128 by 128, seeded with the starting
    /// pattern, whose borders wrap around.
    pub fn new() -> (universe: Universe)
        ensures
            universe@ == Grid::seeded(
                DEFAULT_WIDTH as nat,
                DEFAULT_HEIGHT as nat,
                UniverseEdgeMode::Wrap,
            ),
            universe@.wf(),
    {
        let cells = seed_cells(DEFAULT_WIDTH as usize * DEFAULT_HEIGHT as usize);
        Universe {
            width: DEFAULT_WIDTH,
            height: DEFAULT_HEIGHT,
            cells,
            edge_mode: UniverseEdgeMode::Wrap,
        }
    }

    /// A universe of the given size and boundary rule, seeded with the
    /// starting pattern.
    ///
    /// Fails with `ConstructionError` exactly when a dimension is zero or the
    /// number of cells is beyond what a buffer can hold.
    pub fn with_config(width: u32, height: u32, edge_mode: UniverseEdgeMode) -> (result: Result<
        Universe,
        UniverseError,
    >)
        ensures
            match result {
                Ok(universe) => {
                    &&& width >= 1
                    &&& height >= 1
                    &&& width * height <= usize::MAX
                    &&& universe@ == Grid::seeded(width as nat, height as nat, edge_mode)
                    &&& universe@.wf()
                },
                Err(error) => {
                    &&& error == UniverseError::ConstructionError
                    &&& (width == 0 || height == 0 || width * height > usize::MAX)
                },
            },
    {
        if width == 0 || height == 0 {
            return Err(UniverseError::ConstructionError);
        }
        match cell_count(width, height) {
            Some(count) => {
                let cells = seed_cells(count);
                Ok(Universe { width, height, cells, edge_mode })
            },
            None => Err(UniverseError::ConstructionError),
        }
    }

    /// A universe of the given size and boundary rule that holds the given
    /// cells, row after row.
    ///
    /// Fails with `ConstructionError` exactly when a dimension is zero or the
    /// buffer does not hold `width * height` cells.
    pub fn from_cells(
        width: u32,
        height: u32,
        cells: Vec<Cell>,
        edge_mode: UniverseEdgeMode,
    ) -> (result: Result<Universe, UniverseError>)
        ensures
            match result {
                Ok(universe) => {
                    &&& width >= 1
                    &&& height >= 1
                    &&& cells@.len() == width * height
                    &&& universe@ == (Grid {
                        width: width as nat,
                        height: height as nat,
                        cells: cells@,
                        edge_mode,
                    })
                    &&& universe@.wf()
                },
                Err(error) => {
                    &&& error == UniverseError::ConstructionError
                    &&& (width == 0 || height == 0 || cells@.len() != width * height)
                },
            },
    {
        if width == 0 || height == 0 {
            return Err(UniverseError::ConstructionError);
        }
        match cell_count(width, height) {
            Some(count) => {
                if cells.len() == count {
                    Ok(Universe { width, height, cells, edge_mode })
                } else {
                    Err(UniverseError::ConstructionError)
                }
            },
            None => {
                assert(cells.len() == cells@.len());
                Err(UniverseError::ConstructionError)
            },
        }
    }

    /// The number of rows.
    pub fn width(&self) -> (width: u32)
        ensures
            width == self@.width,
    {
        self.width
    }

    /// The number of cells in each row.
    pub fn height(&self) -> (height: u32)
        ensures
            height == self@.height,
    {
        self.height
    }

    /// The rule for lookups beyond the border.
    pub fn edge_mode(&self) -> (edge_mode: UniverseEdgeMode)
        ensures
            edge_mode == self@.edge_mode,
    {
        self.edge_mode
    }

    /// The cells, row after row.
    pub fn cells(&self) -> (cells: &[Cell])
        ensures
            cells@ == self@.cells,
    {
        self.cells.as_slice()
    }

    /// The cell at `(row, column)`, where that is a position of the grid.
    pub fn cell(&self, row: u32, column: u32) -> (cell: Option<Cell>)
        ensures
            cell == if self@.in_grid(row as int, column as int) {
                Some(self@.cell(row as int, column as int))
            } else {
                None
            },
    {
        if row < self.width && column < self.height {
            let index = self.get_index(row, column);
            Some(self.cells[index])
        } else {
            None
        }
    }

    /// The place in the buffer of the cell at `(row, column)`.
    pub fn get_index(&self, row: u32, column: u32) -> (index: usize)
        requires
            self@.in_grid(row as int, column as int),
        ensures
            index == self@.index_of(row as int, column as int),
            index < self@.cells.len(),
    {
        proof {
            use_type_invariant(self);
            self@.lemma_index_in_range(row as int, column as int);
            assert(self.cells.len() == self.cells@.len());
            assert(0 <= (row as int) * (self.height as int) <= (row as int) * (self.height as int)
                + (column as int)) by (nonlinear_arith)
                requires
                    0 <= row,
                    0 <= self.height,
                    0 <= column,
            ;
        }
        row as usize * self.height as usize + column as usize
    }

    /// What a lookup yields one step away from `(row, column)`. A shift of 0,
    /// 1 or 2 stands for a step of -1, 0 or +1 along its axis.
    fn observe(&self, row: u32, row_shift: u32, column: u32, column_shift: u32) -> (cell: Cell)
        requires
            self@.in_grid(row as int, column as int),
            row_shift <= 2,
            column_shift <= 2,
            self@.edge_mode != UniverseEdgeMode::Expand,
        ensures
            cell == self@.observed(row + row_shift - 1, column + column_shift - 1),
    {
        let (x, row_edge) = step_on_axis(row, row_shift, self.width);
        let (y, column_edge) = step_on_axis(column, column_shift, self.height);
        let edge = row_edge || column_edge;
        let index = self.get_index(x, y);
        match self.edge_mode {
            UniverseEdgeMode::FixedAlive => {
                if edge {
                    Cell::Alive
                } else {
                    self.cells[index]
                }
            },
            UniverseEdgeMode::FixedDead => {
                if edge {
                    Cell::Dead
                } else {
                    self.cells[index]
                }
            },
            _ => self.cells[index],
        }
    }

    /// The number of live cells among the eight neighbours of `(row, column)`,
    /// with lookups beyond the border answered by the boundary rule.
    pub fn live_neighbor_count(&self, row: u32, column: u32) -> (count: u8)
        requires
            self@.in_grid(row as int, column as int),
            self@.edge_mode != UniverseEdgeMode::Expand,
        ensures
            count == self@.live_neighbors(row as int, column as int),
            count <= 8,
    {
        let mut count: u8 = 0;
        for row_shift in 0..3u32
            invariant
                self@.in_grid(row as int, column as int),
                self@.edge_mode != UniverseEdgeMode::Expand,
                count <= 3 * row_shift,
                count == live_in_block(self@, row as int, column as int, 3 * row_shift),
        {
            for column_shift in 0..3u32
                invariant
                    self@.in_grid(row as int, column as int),
                    self@.edge_mode != UniverseEdgeMode::Expand,
                    row_shift < 3,
                    count <= 3 * row_shift + column_shift,
                    count == live_in_block(
                        self@,
                        row as int,
                        column as int,
                        3 * row_shift + column_shift,
                    ),
            {
                if !(row_shift == 1 && column_shift == 1) {
                    count += self.observe(row, row_shift, column, column_shift).live_count();
                }
            }
        }
        proof {
            reveal_with_fuel(live_in_block, 10);
        }
        count
    }

    /// Advances the universe by one generation.
    ///
    /// Every cell of the new generation follows from the old one alone. A
    /// universe in `Expand` mode has no next generation: the call fails with
    /// `UnsupportedEdgeMode` and leaves the universe as it was.
    pub fn tick(&mut self) -> (result: Result<(), UniverseError>)
        ensures
            old(self)@.edge_mode == UniverseEdgeMode::Expand ==> {
                &&& result == Err::<(), UniverseError>(UniverseError::UnsupportedEdgeMode)
                &&& final(self)@ == old(self)@
            },
            old(self)@.edge_mode != UniverseEdgeMode::Expand ==> {
                &&& result is Ok
                &&& final(self)@ == old(self)@.step()
            },
            final(self)@.wf(),
    {
        proof {
            use_type_invariant(&*self);
        }
        if let UniverseEdgeMode::Expand = self.edge_mode {
            return Err(UniverseError::UnsupportedEdgeMode);
        }
        let next_cells = self.next_generation();
        self.cells = next_cells;
        Ok(())
    }

    /// The universe as text: one line for each row, a glyph for each cell,
    /// and a newline at the end of every line.
    pub fn render(&self) -> (text: String)
        ensures
            text@ == self@.rendered(),
    {
        proof {
            use_type_invariant(self);
        }
        let mut text = String::new();
        for row in 0..self.width
            invariant
                self@.wf(),
                text@ == self@.lines(row as nat),
        {
            let ghost above = text@;
            for column in 0..self.height
                invariant
                    self@.wf(),
                    row < self.width,
                    text@ == above + Seq::new(
                        column as nat,
                        |c: int| self@.cell(row as int, c).glyph(),
                    ),
            {
                let index = self.get_index(row, column);
                text.append(self.cells[index].glyph_text());
                assert(text@ =~= above + Seq::new(
                    (column + 1) as nat,
                    |c: int| self@.cell(row as int, c).glyph(),
                ));
            }
            text.append("\n");
            proof {
                reveal_strlit("\n");
                assert("\n"@ =~= seq!['\n']);
                assert(text@ =~= above + self@.line(row as int));
            }
        }
        text
    }

    /// The buffer of the generation that follows the present one.
    fn next_generation(&self) -> (next_cells: Vec<Cell>)
        requires
            self@.edge_mode != UniverseEdgeMode::Expand,
        ensures
            next_cells@ == self@.next_cells(),
    {
        proof {
            use_type_invariant(self);
        }
        let mut next_cells: Vec<Cell> = Vec::new();
        assert(0 * self.height == 0) by (nonlinear_arith);
        for row in 0..self.width
            invariant
                self@.wf(),
                self@.edge_mode != UniverseEdgeMode::Expand,
                next_cells@.len() == row * self.height,
                forall|i: int|
                    0 <= i < next_cells@.len() ==> next_cells@[i] == self@.next_cell(
                        i / (self.height as int),
                        i % (self.height as int),
                    ),
        {
            for column in 0..self.height
                invariant
                    self@.wf(),
                    self@.edge_mode != UniverseEdgeMode::Expand,
                    row < self.width,
                    next_cells@.len() == row * self.height + column,
                    forall|i: int|
                        0 <= i < next_cells@.len() ==> next_cells@[i] == self@.next_cell(
                            i / (self.height as int),
                            i % (self.height as int),
                        ),
            {
                let index = self.get_index(row, column);
                let me = self.cells[index];
                let live_neighbors = self.live_neighbor_count(row, column);
                proof {
                    self@.lemma_index_determines_position(row as int, column as int);
                }
                next_cells.push(me.next(live_neighbors));
            }
            assert(row * self.height + self.height == (row + 1) * self.height)
                by (nonlinear_arith);
        }
        next_cells
    }
}

/// The number of live cells among the first `n` of the nine positions of the
/// block around `(row, column)`, taken row by row; the centre is left out.
spec fn live_in_block(grid: Grid, row: int, column: int, n: int) -> nat
    decreases n,
{
    if n <= 0 {
        0
    } else {
        let k = n - 1;
        let here = if k == 4 {
            0
        } else {
            grid.observed(row + k / 3 - 1, column + k % 3 - 1).live()
        };
        live_in_block(grid, row, column, k) + here
    }
}

/// Where a step from `position` ends on an axis of `extent` places that is
/// closed into a ring, and whether the step left the axis. A shift of 0, 1 or
/// 2 stands for a step of -1, 0 or +1.
fn step_on_axis(position: u32, shift: u32, extent: u32) -> (landing: (u32, bool))
    requires
        position < extent,
        shift <= 2,
    ensures
        landing.0 < extent,
        landing.0 == (position + shift - 1) % (extent as int),
        landing.1 == !(0 <= position + shift - 1 < extent),
        !landing.1 ==> landing.0 == position + shift - 1,
{
    let delta: u64 = if shift == 0 {
        extent as u64 - 1
    } else {
        shift as u64 - 1
    };
    let wrapped = ((position as u64 + delta) % extent as u64) as u32;
    let edge = shift == 0 && position == 0 || shift == 2 && wrapped <= position;
    proof {
        let target = position + shift - 1;
        if shift == 0 {
            lemma_mod_add_multiples_vanish(target, extent as int);
        }
        if 0 <= target < extent {
            lemma_small_mod(target as nat, extent as nat);
        } else if target == extent {
            lemma_mod_self_0(extent as int);
        } else {
            lemma_small_mod((extent - 1) as nat, extent as nat);
        }
    }
    (wrapped, edge)
}

/// The number of cells of a grid of the given size, where a buffer can hold
/// that many.
fn cell_count(width: u32, height: u32) -> (count: Option<usize>)
    ensures
        match count {
            Some(n) => n == width * height,
            None => width * height > usize::MAX,
        },
{
    assert(width * height <= 0xffff_ffff * 0xffff_ffff) by (nonlinear_arith)
        requires
            width <= 0xffff_ffff,
            height <= 0xffff_ffff,
    ;
    let product: u64 = width as u64 * height as u64;
    if product <= usize::MAX as u64 {
        Some(product as usize)
    } else {
        None
    }
}

/// A buffer of `count` cells that holds the starting pattern.
fn seed_cells(count: usize) -> (cells: Vec<Cell>)
    ensures
        cells@ == Seq::new(count as nat, |i: int| Cell::seed(i)),
{
    let mut cells: Vec<Cell> = Vec::new();
    let mut i: usize = 0;
    while i < count
        invariant
            i <= count,
            cells@.len() == i,
            forall|j: int| 0 <= j < i ==> cells@[j] == Cell::seed(j),
        decreases count - i,
    {
        cells.push(Cell::seeded_at(i));
        i += 1;
    }
    cells
}

} // verus!
