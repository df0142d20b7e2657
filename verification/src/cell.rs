//! The values a universe is made of: cells, boundary rules and errors.

use vstd::prelude::*;

verus! {

/// The state of one grid position.
#[derive(Clone, Copy, Debug, PartialEq, Eq, Structural)]
pub enum Cell {
    Dead,
    Alive,
}

impl Cell {
    /// What the cell adds to a count of live cells: one if alive, nothing if dead.
    pub open spec fn live(self) -> nat {
        match self {
            Cell::Dead => 0,
            Cell::Alive => 1,
        }
    }

    /// The character that stands for the cell in rendered text.
    pub open spec fn spec_glyph(self) -> char {
        match self {
            Cell::Dead => '◻',
            Cell::Alive => '◼',
        }
    }

    /// The cell with which position `i` of a freshly seeded buffer starts:
    /// alive where `i` is a multiple of 2 or of 7.
    pub open spec fn seed(i: int) -> Cell {
        if i % 2 == 0 || i % 7 == 0 {
            Cell::Alive
        } else {
            Cell::Dead
        }
    }

    /// The state in the next generation of a cell in state `self` that has
    /// `live_neighbors` live neighbours.
    pub open spec fn next_state(self, live_neighbors: nat) -> Cell {
        if live_neighbors == 3 {
            Cell::Alive
        } else if live_neighbors == 2 {
            self
        } else {
            Cell::Dead
        }
    }

    /// The cell that position `i` of a freshly seeded buffer holds.
    pub fn seeded_at(i: usize) -> (cell: Cell)
        ensures
            cell == Cell::seed(i as int),
    {
        if i % 2 == 0 || i % 7 == 0 {
            Cell::Alive
        } else {
            Cell::Dead
        }
    }

    /// The cell's contribution to a neighbour count.
    pub fn live_count(self) -> (count: u8)
        ensures
            count == self.live(),
    {
        match self {
            Cell::Dead => 0,
            Cell::Alive => 1,
        }
    }

    /// The character that renders the cell.
    #[verifier::when_used_as_spec(spec_glyph)]
    pub fn glyph(self) -> (symbol: char)
        ensures
            symbol == self.spec_glyph(),
    {
        match self {
            Cell::Dead => '◻',
            Cell::Alive => '◼',
        }
    }

    /// The cell's glyph as a piece of text.
    pub fn glyph_text(self) -> (text: &'static str)
        ensures
            text@ == seq![self.glyph()],
    {
        proof {
            reveal_strlit("◻");
            reveal_strlit("◼");
        }
        match self {
            Cell::Dead => {
                assert("◻"@ =~= seq!['◻']);
                "◻"
            },
            Cell::Alive => {
                assert("◼"@ =~= seq!['◼']);
                "◼"
            },
        }
    }

    /// Applies the transition rule: a cell with three live neighbours is
    /// alive, one with two keeps its state, any other is dead.
    pub fn next(self, live_neighbors: u8) -> (cell: Cell)
        ensures
            cell == self.next_state(live_neighbors as nat),
    {
        match live_neighbors {
            0 | 1 => Cell::Dead,
            2 => self,
            3 => Cell::Alive,
            _ => Cell::Dead,
        }
    }
}

/// How a lookup beyond the border of the grid is answered.
#[derive(Clone, Copy, Debug, PartialEq, Eq, Structural)]
pub enum UniverseEdgeMode {
    /// Every position outside the grid counts as alive.
    FixedAlive,
    /// Every position outside the grid counts as dead.
    FixedDead,
    /// Opposite borders are joined: the grid is a torus.
    Wrap,
    /// The grid would grow and shrink with its contents. No rule for that is
    /// defined, so a universe in this mode cannot advance.
    Expand,
}

/// Why an operation on a universe failed.
#[derive(Clone, Copy, Debug, PartialEq, Eq, Structural)]
pub enum UniverseError {
    /// The universe's boundary rule defines no next generation.
    UnsupportedEdgeMode,
    /// The dimensions are zero, or do not go with the cell buffer.
    ConstructionError,
}

} // verus!
