//! The mathematical model of a universe.
//!
//! Everything here is specification and proof: [`Grid`] says what a universe
//! holds, its spec functions say what a lookup, a generation and a rendering
//! are, and the proof functions state what follows for every grid.

use vstd::prelude::*;
use vstd::arithmetic::div_mod::{
    lemma_fundamental_div_mod,
    lemma_fundamental_div_mod_converse,
    lemma_mod_add_multiples_vanish,
    lemma_mod_pos_bound,
    lemma_mod_self_0,
    lemma_small_mod,
};
use vstd::arithmetic::mul::lemma_mul_is_commutative;
use crate::cell::{Cell, UniverseEdgeMode};

verus! {

/// A universe as a mathematical value: `width` rows of `height` cells each,
/// stored row after row, and the rule for lookups beyond the border.
pub struct Grid {
    pub width: nat,
    pub height: nat,
    pub cells: Seq<Cell>,
    pub edge_mode: UniverseEdgeMode,
}

impl Grid {
    /// Both dimensions are at least one and the buffer holds one cell for
    /// each position.
    pub open spec fn wf(self) -> bool {
        &&& self.width >= 1
        &&& self.height >= 1
        &&& self.cells.len() == self.width * self.height
    }

    /// Whether `(row, column)` is a position of the grid.
    pub open spec fn in_grid(self, row: int, column: int) -> bool {
        0 <= row < self.width && 0 <= column < self.height
    }

    /// Whether `i` is a place in the buffer.
    pub open spec fn in_buffer(self, i: int) -> bool {
        0 <= i < self.width * self.height
    }

    /// The place in the buffer of the cell at `(row, column)`.
    pub open spec fn index_of(self, row: int, column: int) -> int {
        row * self.height + column
    }

    /// The cell at a position of the grid.
    pub open spec fn cell(self, row: int, column: int) -> Cell
        recommends
            self.in_grid(row, column),
    {
        self.cells[self.index_of(row, column)]
    }

    /// The cell that `(row, column)` names once opposite borders are joined.
    pub open spec fn wrapped_cell(self, row: int, column: int) -> Cell {
        self.cell(row % (self.width as int), column % (self.height as int))
    }

    /// What a lookup at `(row, column)` yields. Inside the grid that is the
    /// cell itself. Outside, the boundary rule decides; under `Expand` no
    /// answer is defined.
    pub open spec fn observed(self, row: int, column: int) -> Cell {
        if self.in_grid(row, column) {
            self.cell(row, column)
        } else {
            match self.edge_mode {
                UniverseEdgeMode::FixedAlive => Cell::Alive,
                UniverseEdgeMode::FixedDead => Cell::Dead,
                UniverseEdgeMode::Wrap => self.wrapped_cell(row, column),
                UniverseEdgeMode::Expand => arbitrary(),
            }
        }
    }

    /// The number of live cells among the eight positions around
    /// `(row, column)`.
    pub open spec fn live_neighbors(self, row: int, column: int) -> nat {
        self.observed(row - 1, column - 1).live()
            + self.observed(row - 1, column).live()
            + self.observed(row - 1, column + 1).live()
            + self.observed(row, column - 1).live()
            + self.observed(row, column + 1).live()
            + self.observed(row + 1, column - 1).live()
            + self.observed(row + 1, column).live()
            + self.observed(row + 1, column + 1).live()
    }

    /// The state of the cell at `(row, column)` one generation on.
    pub open spec fn next_cell(self, row: int, column: int) -> Cell {
        self.cell(row, column).next_state(self.live_neighbors(row, column))
    }

    /// The buffer one generation on: every cell follows from the present
    /// generation alone.
    pub open spec fn next_cells(self) -> Seq<Cell> {
        Seq::new(
            self.cells.len(),
            |i: int| self.next_cell(i / (self.height as int), i % (self.height as int)),
        )
    }

    /// The grid one generation on.
    pub open spec fn step(self) -> Grid {
        Grid {
            width: self.width,
            height: self.height,
            cells: self.next_cells(),
            edge_mode: self.edge_mode,
        }
    }

    /// The grid that a new universe of the given size starts from.
    pub open spec fn seeded(width: nat, height: nat, edge_mode: UniverseEdgeMode) -> Grid {
        Grid { width, height, cells: Seq::new(width * height, |i: int| Cell::seed(i)), edge_mode }
    }

    /// The text of one row: the glyph of each of its cells, then a newline.
    pub open spec fn line(self, row: int) -> Seq<char> {
        Seq::new(self.height, |column: int| self.cell(row, column).glyph()).push('\n')
    }

    /// The text of the first `rows` rows.
    pub open spec fn lines(self, rows: nat) -> Seq<char>
        decreases rows,
    {
        if rows == 0 {
            Seq::empty()
        } else {
            self.lines((rows - 1) as nat) + self.line(rows - 1)
        }
    }

    /// The text of the whole grid, one line for each row.
    pub open spec fn rendered(self) -> Seq<char> {
        self.lines(self.width)
    }

    /// Every position of the grid has its place inside the buffer.
    pub proof fn lemma_index_in_range(self, row: int, column: int)
        requires
            self.wf(),
            self.in_grid(row, column),
        ensures
            0 <= self.index_of(row, column) < self.cells.len(),
    {
        let w = self.width as int;
        let h = self.height as int;
        assert(0 <= row * h + column < w * h) by (nonlinear_arith)
            requires
                0 <= row < w,
                0 <= column < h,
        ;
    }

    /// A place in the buffer determines the position: the row is the
    /// quotient by the height and the column the remainder.
    pub proof fn lemma_index_determines_position(self, row: int, column: int)
        requires
            self.wf(),
            self.in_grid(row, column),
        ensures
            self.index_of(row, column) / (self.height as int) == row,
            self.index_of(row, column) % (self.height as int) == column,
    {
        lemma_fundamental_div_mod_converse(
            self.index_of(row, column),
            self.height as int,
            row,
            column,
        );
    }

    /// Two positions of the grid with the same place in the buffer are the
    /// same position.
    pub proof fn lemma_index_injective(self, row1: int, column1: int, row2: int, column2: int)
        requires
            self.wf(),
            self.in_grid(row1, column1),
            self.in_grid(row2, column2),
            self.index_of(row1, column1) == self.index_of(row2, column2),
        ensures
            row1 == row2,
            column1 == column2,
    {
        self.lemma_index_determines_position(row1, column1);
        self.lemma_index_determines_position(row2, column2);
    }

    /// Every place in the buffer belongs to a position of the grid.
    pub proof fn lemma_index_onto(self, i: int)
        requires
            self.wf(),
            0 <= i < self.cells.len(),
        ensures
            self.in_grid(i / (self.height as int), i % (self.height as int)),
            self.index_of(i / (self.height as int), i % (self.height as int)) == i,
    {
        let w = self.width as int;
        let h = self.height as int;
        let q = i / h;
        let r = i % h;
        lemma_fundamental_div_mod(i, h);
        lemma_mod_pos_bound(i, h);
        lemma_mul_is_commutative(h, q);
        assert(0 <= q < w) by (nonlinear_arith)
            requires
                i == q * h + r,
                0 <= r < h,
                0 <= i < w * h,
        ;
    }

    /// The positions of the grid and the places in the buffer correspond one
    /// to one.
    pub proof fn lemma_index_bijection(self)
        requires
            self.wf(),
        ensures
            forall|row: int, column: int|
                self.in_grid(row, column) ==> self.in_buffer(
                    #[trigger] self.index_of(row, column),
                ),
            forall|row1: int, column1: int, row2: int, column2: int|
                self.in_grid(row1, column1) && self.in_grid(row2, column2)
                    && #[trigger] self.index_of(row1, column1) == #[trigger] self.index_of(
                    row2,
                    column2,
                ) ==> row1 == row2 && column1 == column2,
            forall|i: int| #[trigger]
                self.in_buffer(i) ==> exists|row: int, column: int|
                    self.in_grid(row, column) && #[trigger] self.index_of(row, column) == i,
    {
        assert forall|row: int, column: int| self.in_grid(row, column) implies self.in_buffer(
            #[trigger] self.index_of(row, column),
        ) by {
            self.lemma_index_in_range(row, column);
        }
        assert forall|row1: int, column1: int, row2: int, column2: int|
            self.in_grid(row1, column1) && self.in_grid(row2, column2)
                && #[trigger] self.index_of(row1, column1) == #[trigger] self.index_of(
                row2,
                column2,
            ) implies row1 == row2 && column1 == column2 by {
            self.lemma_index_injective(row1, column1, row2, column2);
        }
        assert forall|i: int| #[trigger] self.in_buffer(i) implies exists|row: int, column: int|
            self.in_grid(row, column) && #[trigger] self.index_of(row, column) == i by {
            self.lemma_index_onto(i);
            let row = i / (self.height as int);
            let column = i % (self.height as int);
            assert(self.in_grid(row, column) && self.index_of(row, column) == i);
        }
    }

    /// No position has more than eight live neighbours.
    pub proof fn lemma_live_neighbors_bound(self, row: int, column: int)
        ensures
            self.live_neighbors(row, column) <= 8,
    {
    }

    /// Two seeded grids of the same size hold the same cells, whatever their
    /// boundary rules.
    pub proof fn lemma_seed_depends_on_size_only(
        width: nat,
        height: nat,
        mode1: UniverseEdgeMode,
        mode2: UniverseEdgeMode,
    )
        ensures
            Grid::seeded(width, height, mode1).cells == Grid::seeded(width, height, mode2).cells,
            Grid::seeded(width, height, mode1).cells.len() == width * height,
            forall|i: int|
                0 <= i < width * height ==> #[trigger] Grid::seeded(width, height, mode1).cells[i]
                    == Cell::seed(i),
    {
    }

    /// A generation keeps the size and the boundary rule of the grid.
    pub proof fn lemma_step_keeps_shape(self)
        requires
            self.wf(),
        ensures
            self.step().wf(),
            self.step().width == self.width,
            self.step().height == self.height,
            self.step().edge_mode == self.edge_mode,
    {
    }

    /// One generation on, each cell is what the transition rule makes of its
    /// old state and its old neighbours.
    pub proof fn lemma_step_cell(self, row: int, column: int)
        requires
            self.wf(),
            self.in_grid(row, column),
        ensures
            self.step().cell(row, column) == self.cell(row, column).next_state(
                self.live_neighbors(row, column),
            ),
    {
        self.lemma_index_in_range(row, column);
        self.lemma_index_determines_position(row, column);
    }

    /// Under `FixedDead` a position outside the grid counts as dead, whatever
    /// the buffer holds.
    pub proof fn lemma_outside_fixed_dead(self, row: int, column: int)
        requires
            self.edge_mode == UniverseEdgeMode::FixedDead,
            !self.in_grid(row, column),
        ensures
            self.observed(row, column).live() == 0,
    {
    }

    /// Under `FixedAlive` a position outside the grid counts as alive,
    /// whatever the buffer holds.
    pub proof fn lemma_outside_fixed_alive(self, row: int, column: int)
        requires
            self.edge_mode == UniverseEdgeMode::FixedAlive,
            !self.in_grid(row, column),
        ensures
            self.observed(row, column).live() == 1,
    {
    }

    /// Under `Wrap` a lookup one step beyond a border yields the cell at the
    /// opposite border.
    pub proof fn lemma_outside_wrap(self, row: int, column: int)
        requires
            self.wf(),
            self.edge_mode == UniverseEdgeMode::Wrap,
            -1 <= row <= self.width,
            -1 <= column <= self.height,
        ensures
            self.observed(row, column) == self.cell(
                if row < 0 {
                    self.width - 1
                } else if row == self.width {
                    0
                } else {
                    row
                },
                if column < 0 {
                    self.height - 1
                } else if column == self.height {
                    0
                } else {
                    column
                },
            ),
    {
        lemma_wrap_one_step(row, self.width as int);
        lemma_wrap_one_step(column, self.height as int);
    }

    /// At the corner `(0, 0)` of a `FixedDead` grid only the three neighbours
    /// inside the grid count.
    pub proof fn lemma_corner_fixed_dead(self)
        requires
            self.wf(),
            self.edge_mode == UniverseEdgeMode::FixedDead,
            self.width >= 2,
            self.height >= 2,
        ensures
            self.live_neighbors(0, 0) == self.cell(0, 1).live() + self.cell(1, 0).live()
                + self.cell(1, 1).live(),
    {
    }

    /// At the corner `(0, 0)` of a `FixedAlive` grid the five positions
    /// outside the grid count as alive, beside the three neighbours inside.
    pub proof fn lemma_corner_fixed_alive(self)
        requires
            self.wf(),
            self.edge_mode == UniverseEdgeMode::FixedAlive,
            self.width >= 2,
            self.height >= 2,
        ensures
            self.live_neighbors(0, 0) == 5 + self.cell(0, 1).live() + self.cell(1, 0).live()
                + self.cell(1, 1).live(),
    {
    }

    /// The text of the first `rows` rows has `height + 1` characters for
    /// each row.
    pub proof fn lemma_lines_len(self, rows: nat)
        ensures
            self.lines(rows).len() == rows * (self.height + 1),
        decreases rows,
    {
        if rows > 0 {
            self.lemma_lines_len((rows - 1) as nat);
            assert((rows - 1) * (self.height + 1) + (self.height + 1) == rows * (self.height + 1))
                by (nonlinear_arith);
        } else {
            assert(0 * (self.height + 1) == 0) by (nonlinear_arith);
        }
    }

    /// In the text of the first `rows` rows, row `row` starts at
    /// `row * (height + 1)`: there stand the glyphs of its cells, then a
    /// newline.
    pub proof fn lemma_lines_char(self, rows: nat, row: int, column: int)
        requires
            0 <= row < rows,
            0 <= column <= self.height,
        ensures
            0 <= row * (self.height + 1) + column < self.lines(rows).len(),
            self.lines(rows)[row * (self.height + 1) + column] == if column == self.height {
                '\n'
            } else {
                self.cell(row, column).glyph()
            },
        decreases rows,
    {
        let above = self.lines((rows - 1) as nat);
        self.lemma_lines_len((rows - 1) as nat);
        self.lemma_lines_len(rows);
        assert(0 <= row * (self.height + 1)) by (nonlinear_arith)
            requires
                0 <= row,
        ;
        if row < rows - 1 {
            self.lemma_lines_char((rows - 1) as nat, row, column);
        } else {
            assert(self.lines(rows)[above.len() + column] == self.line(rows - 1)[column]);
        }
    }

    /// The rendered text has one line of `height` glyphs for each row, each
    /// ended by a newline, and nothing else.
    pub proof fn lemma_rendered(self)
        ensures
            self.rendered().len() == self.width * (self.height + 1),
            forall|row: int, column: int|
                0 <= row < self.width && 0 <= column < self.height
                    ==> self.rendered()[row * (self.height + 1) + column] == (
                #[trigger] self.cell(row, column)).glyph(),
            forall|row: int|
                0 <= row < self.width ==> self.rendered()[#[trigger] (row * (self.height + 1))
                    + self.height] == '\n',
    {
        self.lemma_lines_len(self.width);
        assert forall|row: int, column: int|
            0 <= row < self.width && 0 <= column < self.height implies self.rendered()[row * (
            self.height + 1) + column] == (#[trigger] self.cell(row, column)).glyph() by {
            self.lemma_lines_char(self.width, row, column);
        }
        assert forall|row: int| 0 <= row < self.width implies self.rendered()[#[trigger] (row * (
        self.height + 1)) + self.height] == '\n' by {
            self.lemma_lines_char(self.width, row, self.height as int);
        }
    }
}

/// One step beyond either end of an axis of `extent` places leads, on the
/// ring, to the other end.
proof fn lemma_wrap_one_step(position: int, extent: int)
    requires
        extent >= 1,
        -1 <= position <= extent,
    ensures
        position % extent == if position < 0 {
            extent - 1
        } else if position == extent {
            0
        } else {
            position
        },
{
    if position < 0 {
        lemma_mod_add_multiples_vanish(position, extent);
        lemma_small_mod((extent - 1) as nat, extent as nat);
    } else if position == extent {
        lemma_mod_self_0(extent);
    } else {
        lemma_small_mod(position as nat, extent as nat);
    }
}

} // verus!
