//! A living cell pinned to one place on the grid.

use crate::place::Place;
use vstd::prelude::*;
use vstd::string::StringExecFns;

verus! {

/// A cell; its identity is its position. Cells are never mutated: survivors
/// and newborns are created fresh each generation.
#[derive(Clone, Copy, Debug, PartialEq, Eq, Structural)]
pub struct Cell {
    /// Where this cell lives.
    pub position: Place,
    /// Whether this cell has been marked dead. Dead ones count not as
    /// neighbours.
    pub is_dead: bool,
}

/// The one-character rendering of a cell: a sun for a living cell, a dimmed
/// sun for a dead one.
pub open spec fn spec_cell_glyph(c: Cell) -> Seq<char> {
    if c.is_dead {
        "☼"@
    } else {
        "☀"@
    }
}

impl Cell {
    /// Create a new living cell at the given position.
    pub fn new(position: Place) -> (r: Cell)
        ensures
            r == (Cell { position, is_dead: false }),
    {
        Cell { position, is_dead: false }
    }

    /// Get the position of the cell.
    pub fn get_position(&self) -> (r: &Place)
        ensures
            *r == self.position,
    {
        &self.position
    }

    /// Creates a copy of this cell with flag dead.
    /// This method does not mutate this cell.
    pub fn kill(&self) -> (r: Cell)
        ensures
            r == (Cell { position: self.position, is_dead: true }),
    {
        Cell { position: self.position, is_dead: true }
    }

    /// Whether this cell is dead or alive.
    pub fn is_dead(&self) -> (r: bool)
        ensures
            r == self.is_dead,
    {
        self.is_dead
    }

    /// Render this cell as its one-character glyph.
    pub fn to_display_string(&self) -> (r: String)
        ensures
            r@ == spec_cell_glyph(*self),
    {
        if self.is_dead {
            String::from_str("☼")
        } else {
            String::from_str("☀")
        }
    }
}

} // verus!
