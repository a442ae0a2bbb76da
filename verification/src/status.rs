//! Generation counters of a population.
//!
//! A [`Status`] is an immutable record of the iteration index, the current
//! live-cell count and the cumulative born/died counters; it changes only
//! through pure increment operations that return a new value.

use crate::text::dec_string;
use crate::text::pad_left;
use crate::text::spec_dec;
use crate::text::spec_pad_left;
use vstd::prelude::*;
use vstd::string::StringExecFns;

verus! {

/// Immutable generation counters.
#[derive(Clone, Copy, Debug, PartialEq, Eq, Structural)]
pub struct Status {
    /// The index of the generation this status belongs to.
    pub iteration: usize,
    /// Number of cells the population has.
    pub cells: usize,
    /// How many cells were born over the whole run so far.
    pub born: usize,
    /// How many cells died over the whole run so far.
    pub died: usize,
}

/// The fixed-format status line
/// `Iteration: I, Cells: C, Born: B, Died: D`
/// with every counter right-aligned in five columns.
pub open spec fn spec_status_line(s: Status) -> Seq<char> {
    "Iteration: "@ + spec_pad_left(spec_dec(s.iteration as nat), 5) + ", Cells:  "@
        + spec_pad_left(spec_dec(s.cells as nat), 5) + ", Born:  "@ + spec_pad_left(
        spec_dec(s.born as nat),
        5,
    ) + ", Died:   "@ + spec_pad_left(spec_dec(s.died as nat), 5)
}

impl Status {
    /// The status with the iteration index advanced by one.
    pub open spec fn spec_inc_iteration(self) -> Status
        recommends
            self.iteration < usize::MAX,
    {
        Status { iteration: (self.iteration + 1) as usize, ..self }
    }

    /// The status after one birth: one cell more, one more born.
    pub open spec fn spec_inc_born(self) -> Status
        recommends
            self.cells < usize::MAX,
            self.born < usize::MAX,
    {
        Status {
            cells: (self.cells + 1) as usize,
            born: (self.born + 1) as usize,
            ..self
        }
    }

    /// The status after one death: one cell fewer, one more died.
    pub open spec fn spec_inc_died(self) -> Status
        recommends
            self.cells > 0,
            self.died < usize::MAX,
    {
        Status {
            cells: (self.cells - 1) as usize,
            died: (self.died + 1) as usize,
            ..self
        }
    }

    /// Creates a new status.
    pub fn new(iteration: usize, cells: usize, born: usize, died: usize) -> (r: Status)
        ensures
            r == (Status { iteration, cells, born, died }),
    {
        Status { iteration, cells, born, died }
    }

    /// Get the iteration count.
    pub fn get_iteration(&self) -> (r: usize)
        ensures
            r == self.iteration,
    {
        self.iteration
    }

    /// This method increases the iteration property by one and returns a new
    /// status. The original status will be unchanged.
    pub fn inc_iteration(&self) -> (r: Status)
        requires
            self.iteration < usize::MAX,
        ensures
            r == self.spec_inc_iteration(),
    {
        Status {
            iteration: self.iteration + 1,
            cells: self.cells,
            born: self.born,
            died: self.died,
        }
    }

    /// Get the number of living cells of this iteration.
    pub fn get_cells(&self) -> (r: usize)
        ensures
            r == self.cells,
    {
        self.cells
    }

    /// Get the number of born cells so far.
    pub fn get_born(&self) -> (r: usize)
        ensures
            r == self.born,
    {
        self.born
    }

    /// This method increases the born property and the cells property by one
    /// and returns a new status. The original status will be unchanged.
    pub fn inc_born(&self) -> (r: Status)
        requires
            self.cells < usize::MAX,
            self.born < usize::MAX,
        ensures
            r == self.spec_inc_born(),
    {
        Status {
            iteration: self.iteration,
            cells: self.cells + 1,
            born: self.born + 1,
            died: self.died,
        }
    }

    /// Get the number of died cells so far.
    pub fn get_died(&self) -> (r: usize)
        ensures
            r == self.died,
    {
        self.died
    }

    /// This method increases the died property by one and decreases the cells
    /// property by one and returns a new status. The original status will be
    /// unchanged.
    pub fn inc_died(&self) -> (r: Status)
        requires
            self.cells > 0,
            self.died < usize::MAX,
        ensures
            r == self.spec_inc_died(),
    {
        Status {
            iteration: self.iteration,
            cells: self.cells - 1,
            born: self.born,
            died: self.died + 1,
        }
    }

    /// Determines if this population has changed to the other.
    /// A population is considered changed if either born or died cell number
    /// is different.
    pub fn is_population_unchanged(&self, other: Status) -> (r: bool)
        ensures
            r == (self.died == other.died && self.born == other.born),
    {
        self.died == other.died && self.born == other.born
    }

    /// Render this status as its fixed-format line.
    pub fn to_display_string(&self) -> (r: String)
        ensures
            r@ == spec_status_line(*self),
    {
        let mut r = String::from_str("Iteration: ");
        r.append(pad_left(dec_string(self.iteration as u64), 5).as_str());
        r.append(", Cells:  ");
        r.append(pad_left(dec_string(self.cells as u64), 5).as_str());
        r.append(", Born:  ");
        r.append(pad_left(dec_string(self.born as u64), 5).as_str());
        r.append(", Died:   ");
        r.append(pad_left(dec_string(self.died as u64), 5).as_str());
        proof {
            assert(r@ =~= spec_status_line(*self));
        }
        r
    }
}

} // verus!
