//! The population aggregate and the evolution engine.
//!
//! A [`Population`] holds a [`Dimension`], a [`Status`] and the living cells.
//! Its generation transition scans every grid position in row-major order,
//! applies the classic rule table against the predecessor's cell set, and is
//! proved to keep the status counters consistent with the surviving cell set.

use crate::cell::Cell;
use crate::dimension::Dimension;
use crate::evolution::alive_next;
use crate::evolution::cell_for;
use crate::evolution::grid_births;
use crate::evolution::grid_deaths;
use crate::evolution::grid_occupied;
use crate::evolution::grid_survivors;
use crate::evolution::lemma_grid_balance;
use crate::evolution::lemma_grid_births_le_places;
use crate::evolution::lemma_grid_deaths_le_occupied;
use crate::evolution::lemma_grid_occupied_counts_cells;
use crate::evolution::lemma_grid_occupied_monotone;
use crate::evolution::lemma_grid_survivors_characterised;
use crate::evolution::lemma_grid_survivors_wf;
use crate::evolution::lemma_row_births_le_places;
use crate::evolution::lemma_row_deaths_le_occupied;
use crate::evolution::lemma_row_occupied_monotone;
use crate::evolution::lemma_grid_scan_all_die;
use crate::evolution::lemma_grid_scan_of_empty;
use crate::evolution::mk_place;
use crate::evolution::row_births;
use crate::evolution::row_deaths;
use crate::evolution::row_occupied;
use crate::evolution::row_survivors;
use crate::place::Place;
use crate::place::is_neighbour;
use crate::place::lemma_dist_sq_self_is_zero;
use crate::place::places_are_neighbours;
use crate::status::Status;
use crate::text::dec_string;
use crate::text::spec_dec;
use crate::text::spec_repeat;
use vstd::prelude::*;
use vstd::string::StringExecFns;

verus! {

/// Whether some cell of `cells` sits exactly at `p`.
pub open spec fn occupied(cells: Seq<Cell>, p: Place) -> bool {
    exists|i: int| 0 <= i < cells.len() && cells[i].position == p
}

/// No two cells of `cells` share a position.
pub open spec fn unique_positions(cells: Seq<Cell>) -> bool {
    forall|i: int, j: int|
        0 <= i < j < cells.len() ==> cells[i].position != cells[j].position
}

/// Whether `p` lies inside the scan domain of `d`.
pub open spec fn in_grid(p: Place, d: Dimension) -> bool {
    p.x < d.width && p.y < d.height
}

/// Every cell of `cells` lies inside the scan domain of `d`.
pub open spec fn cells_in_grid(cells: Seq<Cell>, d: Dimension) -> bool {
    forall|i: int| 0 <= i < cells.len() ==> in_grid(#[trigger] cells[i].position, d)
}

/// How many cells of `cells` are neighbours of the place `p` (a cell sitting
/// exactly at `p` is not its own neighbour).
pub open spec fn neighbour_count(cells: Seq<Cell>, p: Place) -> nat
    decreases cells.len(),
{
    if cells.len() == 0 {
        0
    } else {
        neighbour_count(cells.drop_last(), p) + if is_neighbour(
            cells.last().position,
            p,
        ) {
            1nat
        } else {
            0nat
        }
    }
}

/// The first cell of `cells` sitting exactly at `p`, if any.
pub open spec fn find_cell(cells: Seq<Cell>, p: Place) -> Option<Cell>
    decreases cells.len(),
{
    if cells.len() == 0 {
        None
    } else if cells[0].position == p {
        Some(cells[0])
    } else {
        find_cell(cells.skip(1), p)
    }
}

/// A lookup finds a cell exactly when the place is occupied, and what it
/// finds sits at that place and comes from the cell list.
pub proof fn lemma_find_cell_occupied(cells: Seq<Cell>, p: Place)
    ensures
        find_cell(cells, p) is Some <==> occupied(cells, p),
        find_cell(cells, p) matches Some(c) ==> c.position == p && cells.contains(c),
    decreases cells.len(),
{
    if cells.len() == 0 {
    } else if cells[0].position == p {
        assert(occupied(cells, p));
        assert(cells.contains(cells[0]));
    } else {
        let rest = cells.skip(1);
        lemma_find_cell_occupied(rest, p);
        if occupied(cells, p) {
            let i = choose|i: int| 0 <= i < cells.len() && cells[i].position == p;
            assert(rest[i - 1] == cells[i]);
            assert(occupied(rest, p));
        }
        if occupied(rest, p) {
            let i = choose|i: int| 0 <= i < rest.len() && rest[i].position == p;
            assert(cells[i + 1] == rest[i]);
            assert(occupied(cells, p));
        }
        if find_cell(rest, p) is Some {
            let c = find_cell(rest, p)->Some_0;
            let i = choose|i: int| 0 <= i < rest.len() && rest[i] == c;
            assert(cells[i + 1] == rest[i]);
            assert(cells.contains(c));
        }
    }
}

/// A living cell with this many neighbours dies in the next generation:
/// it survives only on exactly two or three neighbours.
pub open spec fn spec_should_die(n: nat) -> bool {
    n != 2 && n != 3
}

/// An empty place with this many neighbours spawns a new cell in the next
/// generation: exactly on three neighbours.
pub open spec fn spec_should_spawn(n: nat) -> bool {
    n == 3
}

/// A cell should die if it has less than two or more than three neighbours.
pub fn should_die(number_of_neighbours: usize) -> (r: bool)
    ensures
        r == spec_should_die(number_of_neighbours as nat),
{
    match number_of_neighbours {
        2 | 3 => false,
        _ => true,
    }
}

/// At an empty place a new cell should spawn, if this place has exactly three
/// living cells as neighbours.
pub fn should_spawn(number_of_neighbours: usize) -> (r: bool)
    ensures
        r == spec_should_spawn(number_of_neighbours as nat),
{
    number_of_neighbours == 3
}

/// This function counts the number of neighbours (living cells) for a given
/// place.
pub fn count_neighbours(cells: &Vec<Cell>, position: &Place) -> (r: usize)
    ensures
        r == neighbour_count(cells@, *position),
{
    let mut neighbours: usize = 0;
    let mut i: usize = 0;
    while i < cells.len()
        invariant
            i <= cells@.len(),
            neighbours <= i,
            neighbours == neighbour_count(cells@.take(i as int), *position),
        decreases cells@.len() - i,
    {
        if places_are_neighbours(&cells[i].position, position) {
            neighbours = neighbours + 1;
        }
        i = i + 1;
        proof {
            assert(cells@.take(i as int).drop_last() =~= cells@.take(i - 1));
        }
    }
    proof {
        assert(cells@.take(cells@.len() as int) =~= cells@);
    }
    neighbours
}

/// This struct describes a population of cells.
#[derive(Debug)]
pub struct Population {
    /// The status of this population.
    pub status: Status,
    /// The dimension of the population.
    pub size: Dimension,
    /// The living cells of this population.
    pub cells: Vec<Cell>,
}

impl Population {
    /// Whether some cell of this population sits exactly at `p`.
    pub open spec fn spec_has_cell(self, p: Place) -> bool {
        occupied(self.cells@, p)
    }

    /// Internal consistency: the status counts exactly the cells held, no two
    /// cells share a position, and every cell lies inside the grid.
    pub open spec fn inv(self) -> bool {
        &&& self.status.cells == self.cells@.len()
        &&& unique_positions(self.cells@)
        &&& cells_in_grid(self.cells@, self.size)
    }

    /// Create a new population at iteration zero from an initial cell list.
    pub fn new(width: usize, height: usize, cells: Vec<Cell>) -> (r: Population)
        ensures
            r.size == (Dimension { width, height }),
            r.status == (Status { iteration: 0, cells: cells@.len() as usize, born: 0, died: 0 }),
            r.cells@ == cells@,
            forall|q: Place| r.spec_has_cell(q) == occupied(cells@, q),
    {
        let len = cells.len();
        Population { status: Status::new(0, len, 0, 0), size: Dimension::new(width, height), cells }
    }

    /// Get the status of this population.
    pub fn get_status(&self) -> (r: Status)
        ensures
            r == self.status,
    {
        self.status
    }

    /// Get a copy of the living cells of this population.
    pub fn get_cells(&self) -> (r: Vec<Cell>)
        ensures
            r@ == self.cells@,
    {
        let mut r: Vec<Cell> = Vec::new();
        let mut i: usize = 0;
        while i < self.cells.len()
            invariant
                i <= self.cells@.len(),
                r@ == self.cells@.take(i as int),
            decreases self.cells@.len() - i,
        {
            r.push(self.cells[i]);
            i = i + 1;
            proof {
                assert(self.cells@.take(i as int).drop_last() =~= self.cells@.take(i - 1));
                assert(r@ =~= self.cells@.take(i as int));
            }
        }
        proof {
            assert(self.cells@.take(self.cells@.len() as int) =~= self.cells@);
        }
        r
    }

    /// The first living cell at a place, or nothing when the place is empty.
    pub fn get_cell(&self, position: &Place) -> (r: Option<Cell>)
        ensures
            r == find_cell(self.cells@, *position),
    {
        let n = self.cells.len();
        let mut i: usize = 0;
        proof {
            assert(self.cells@.skip(0) =~= self.cells@);
        }
        while i < n
            invariant
                i <= n == self.cells@.len(),
                find_cell(self.cells@, *position) == find_cell(
                    self.cells@.skip(i as int),
                    *position,
                ),
            decreases n - i,
        {
            if self.cells[i].position == *position {
                return Some(self.cells[i]);
            }
            i = i + 1;
            proof {
                assert(self.cells@.skip(i - 1).skip(1) =~= self.cells@.skip(i as int));
            }
        }
        None
    }

    /// Apply the rule table to one place: fold a death or a birth into the
    /// status, and push the retained or newly born cell onto the survivors.
    pub fn visit_place(&self, current_place: Place, next: Status, survived: &mut Vec<Cell>) -> (r:
        Status)
        requires
            occupied(self.cells@, current_place) && spec_should_die(
                neighbour_count(self.cells@, current_place),
            ) ==> next.cells > 0 && next.died < usize::MAX,
            !occupied(self.cells@, current_place) && spec_should_spawn(
                neighbour_count(self.cells@, current_place),
            ) ==> next.cells < usize::MAX && next.born < usize::MAX,
        ensures
            final(survived)@ == if alive_next(self.cells@, current_place) {
                old(survived)@.push(cell_for(self.cells@, current_place))
            } else {
                old(survived)@
            },
            r == if occupied(self.cells@, current_place) && spec_should_die(
                neighbour_count(self.cells@, current_place),
            ) {
                next.spec_inc_died()
            } else if !occupied(self.cells@, current_place) && spec_should_spawn(
                neighbour_count(self.cells@, current_place),
            ) {
                next.spec_inc_born()
            } else {
                next
            },
    {
        let number_of_neighbours = count_neighbours(&self.cells, &current_place);
        proof {
            lemma_find_cell_occupied(self.cells@, current_place);
        }
        match self.get_cell(&current_place) {
            Some(cell) => {
                if should_die(number_of_neighbours) {
                    return next.inc_died();
                } else {
                    survived.push(cell);
                }
            },
            None => {
                if should_spawn(number_of_neighbours) {
                    survived.push(Cell::new(current_place));
                    return next.inc_born();
                }
            },
        }
        next
    }

    /// Scan every place of the grid in row-major order against this
    /// population's cell set, and return the folded status and the survivors.
    #[verifier::loop_isolation(false)]
    pub fn visit_all_places(&self) -> (r: (Status, Vec<Cell>))
        requires
            self.inv(),
            self.status.iteration < usize::MAX,
            self.status.born + self.size.width * self.size.height <= usize::MAX,
            self.status.cells + self.size.width * self.size.height <= usize::MAX,
            self.status.died + self.cells@.len() <= usize::MAX,
        ensures
            ({
                let w = self.size.width as int;
                let h = self.size.height as int;
                &&& r.0.iteration == self.status.iteration + 1
                &&& r.0.born == self.status.born + grid_births(self.cells@, w, h)
                &&& r.0.died == self.status.died + grid_deaths(self.cells@, w, h)
                &&& r.0.cells as int == self.status.cells - grid_deaths(self.cells@, w, h)
                    + grid_births(self.cells@, w, h)
                &&& r.1@ == grid_survivors(self.cells@, w, h)
            }),
    {
        let width = self.size.get_width();
        let height = self.size.get_height();
        let ghost cells0 = self.cells@;
        let ghost w = width as int;
        let ghost h = height as int;
        let mut next = self.get_status().inc_iteration();
        let mut survived: Vec<Cell> = Vec::new();
        let mut y: usize = 0;
        while y < height
            invariant
                y <= height,
                next.iteration == self.status.iteration + 1,
                next.born == self.status.born + grid_births(cells0, w, y as int),
                next.died == self.status.died + grid_deaths(cells0, w, y as int),
                next.cells as int == self.status.cells - grid_deaths(cells0, w, y as int)
                    + grid_births(cells0, w, y as int),
                survived@ == grid_survivors(cells0, w, y as int),
            decreases height - y,
        {
            let mut x: usize = 0;
            while x < width
                invariant
                    x <= width,
                    next.iteration == self.status.iteration + 1,
                    next.born == self.status.born + grid_births(cells0, w, y as int) + row_births(
                        cells0,
                        y as int,
                        x as int,
                    ),
                    next.died == self.status.died + grid_deaths(cells0, w, y as int) + row_deaths(
                        cells0,
                        y as int,
                        x as int,
                    ),
                    next.cells as int == self.status.cells - grid_deaths(cells0, w, y as int)
                        - row_deaths(cells0, y as int, x as int) + grid_births(cells0, w, y as int)
                        + row_births(cells0, y as int, x as int),
                    survived@ == grid_survivors(cells0, w, y as int) + row_survivors(
                        cells0,
                        y as int,
                        x as int,
                    ),
                decreases width - x,
            {
                let current = Place::new(x, y);
                proof {
                    assert(current == mk_place(x as int, y as int));
                    lemma_grid_deaths_le_occupied(cells0, w, y as int);
                    lemma_row_deaths_le_occupied(cells0, y as int, x as int);
                    lemma_grid_births_le_places(cells0, w, y as int);
                    lemma_row_births_le_places(cells0, y as int, x as int);
                    lemma_grid_occupied_counts_cells(cells0, self.size);
                    assert(w * (y as int) + x as int + 1 <= w * h) by (nonlinear_arith)
                        requires
                            0 <= (x as int) && (x as int) < w,
                            0 <= (y as int) && (y as int) < h,
                    ;
                    if occupied(cells0, current) && spec_should_die(
                        neighbour_count(cells0, current),
                    ) {
                        assert(row_occupied(cells0, y as int, x as int + 1) == row_occupied(
                            cells0,
                            y as int,
                            x as int,
                        ) + 1);
                        lemma_row_occupied_monotone(cells0, y as int, x as int + 1, w);
                        assert(grid_occupied(cells0, w, y as int + 1) == grid_occupied(
                            cells0,
                            w,
                            y as int,
                        ) + row_occupied(cells0, y as int, w));
                        lemma_grid_occupied_monotone(cells0, w, y as int + 1, h);
                    }
                }
                next = self.visit_place(current, next, &mut survived);
                x = x + 1;
                proof {
                    assert(survived@ =~= grid_survivors(cells0, w, y as int) + row_survivors(
                        cells0,
                        y as int,
                        x as int,
                    ));
                }
            }
            y = y + 1;
        }
        (next, survived)
    }

    /// Generates the next evolution iteration of this population: every
    /// place of the grid is judged against this population's cell set, and
    /// the new status counters provably match the surviving cell set.
    pub fn next_generation(&self) -> (r: Population)
        requires
            self.inv(),
            self.status.iteration < usize::MAX,
            self.status.born + self.size.width * self.size.height <= usize::MAX,
            self.status.cells + self.size.width * self.size.height <= usize::MAX,
            self.status.died + self.cells@.len() <= usize::MAX,
        ensures
            ({
                let w = self.size.width as int;
                let h = self.size.height as int;
                &&& r.inv()
                &&& r.size == self.size
                &&& r.cells@ == grid_survivors(self.cells@, w, h)
                &&& r.status.iteration == self.status.iteration + 1
                &&& r.status.born == self.status.born + grid_births(self.cells@, w, h)
                &&& r.status.died == self.status.died + grid_deaths(self.cells@, w, h)
                &&& r.status.cells == r.cells@.len()
                &&& forall|q: Place|
                    r.spec_has_cell(q) <==> (in_grid(q, self.size) && alive_next(self.cells@, q))
            }),
    {
        let (next, survived) = self.visit_all_places();
        proof {
            let w = self.size.width as int;
            let h = self.size.height as int;
            lemma_grid_occupied_counts_cells(self.cells@, self.size);
            lemma_grid_balance(self.cells@, w, h);
            lemma_grid_survivors_wf(self.cells@, w, h);
            lemma_grid_survivors_characterised(self.cells@, self.size);
        }
        Population { status: next, size: self.size, cells: survived }
    }

    /// Whether a living cell sits exactly at the given place.
    pub fn has_cell(&self, position: &Place) -> (r: bool)
        ensures
            r == self.spec_has_cell(*position),
    {
        proof {
            lemma_find_cell_occupied(self.cells@, *position);
        }
        match self.get_cell(position) {
            Some(_) => true,
            None => false,
        }
    }

    /// Render this population as a bordered box: a border line, one `|`-framed
    /// row of glyphs per grid row (the sun on an occupied place, a space on an
    /// empty one), and a closing border line, each line ending in a newline.
    #[verifier::loop_isolation(false)]
    pub fn render(&self) -> (r: String)
        ensures
            r@ == spec_render(self.cells@, self.size.width as nat, self.size.height as nat),
    {
        let width = self.size.get_width();
        let height = self.size.get_height();
        let ghost cells0 = self.cells@;
        let ghost w = width as nat;
        let mut buf = generate_line_for_population(width);
        buf.append("\n");
        proof {
            reveal_strlit("\n");
            assert(buf@ =~= spec_grid_line(w) + seq!['\n']);
        }
        let mut y: usize = 0;
        while y < height
            invariant
                y <= height,
                buf@ == spec_grid_line(w) + seq!['\n'] + spec_render_rows(cells0, w, y as nat),
            decreases height - y,
        {
            buf.append("|");
            proof {
                reveal_strlit("|");
            }
            let mut x: usize = 0;
            while x < width
                invariant
                    x <= width,
                    buf@ == spec_grid_line(w) + seq!['\n'] + spec_render_rows(cells0, w, y as nat)
                        + seq!['|'] + spec_row_glyphs(cells0, x as nat, y as nat),
                decreases width - x,
            {
                let current = Place::new(x, y);
                proof {
                    lemma_find_cell_occupied(cells0, current);
                }
                match self.get_cell(&current) {
                    Some(_) => buf.append("☀"),
                    None => buf.append(" "),
                }
                x = x + 1;
                proof {
                    reveal_strlit("☀");
                    reveal_strlit(" ");
                    assert(buf@ =~= spec_grid_line(w) + seq!['\n'] + spec_render_rows(
                        cells0,
                        w,
                        y as nat,
                    ) + seq!['|'] + spec_row_glyphs(cells0, x as nat, y as nat));
                }
            }
            buf.append("|");
            buf.append("\n");
            y = y + 1;
            proof {
                reveal_strlit("|");
                reveal_strlit("\n");
                assert(buf@ =~= spec_grid_line(w) + seq!['\n'] + spec_render_rows(
                    cells0,
                    w,
                    y as nat,
                ));
            }
        }
        let closing = generate_line_for_population(width);
        buf.append(closing.as_str());
        buf.append("\n");
        proof {
            reveal_strlit("\n");
            assert(buf@ =~= spec_render(cells0, w, height as nat));
        }
        buf
    }

    /// Render this population for debugging: each row prefixed with its row
    /// index and drawn with `O`/space glyphs, then a trailing line with the
    /// column indices.
    #[verifier::loop_isolation(false)]
    pub fn render_debug(&self) -> (r: String)
        ensures
            r@ == spec_debug_render(self.cells@, self.size.width as nat, self.size.height as nat),
    {
        let width = self.size.get_width();
        let height = self.size.get_height();
        let ghost cells0 = self.cells@;
        let ghost w = width as nat;
        let mut buf = String::new();
        let mut y: usize = 0;
        while y < height
            invariant
                y <= height,
                buf@ == spec_debug_rows(cells0, w, y as nat),
            decreases height - y,
        {
            buf.append(dec_string(y as u64).as_str());
            let mut x: usize = 0;
            while x < width
                invariant
                    x <= width,
                    buf@ == spec_debug_rows(cells0, w, y as nat) + spec_dec(y as nat)
                        + spec_debug_row_glyphs(cells0, x as nat, y as nat),
                decreases width - x,
            {
                let current = Place::new(x, y);
                proof {
                    lemma_find_cell_occupied(cells0, current);
                }
                match self.get_cell(&current) {
                    Some(_) => buf.append("O"),
                    None => buf.append(" "),
                }
                x = x + 1;
                proof {
                    reveal_strlit("O");
                    reveal_strlit(" ");
                    assert(buf@ =~= spec_debug_rows(cells0, w, y as nat) + spec_dec(y as nat)
                        + spec_debug_row_glyphs(cells0, x as nat, y as nat));
                }
            }
            buf.append("\n");
            y = y + 1;
            proof {
                reveal_strlit("\n");
                assert(buf@ =~= spec_debug_rows(cells0, w, y as nat));
            }
        }
        buf.append(" ");
        proof {
            reveal_strlit(" ");
            assert(buf@ =~= spec_debug_rows(cells0, w, height as nat) + seq![' '] + spec_axis(0));
        }
        let mut x: usize = 0;
        while x < width
            invariant
                x <= width,
                buf@ == spec_debug_rows(cells0, w, height as nat) + seq![' '] + spec_axis(
                    x as nat,
                ),
            decreases width - x,
        {
            buf.append(dec_string(x as u64).as_str());
            x = x + 1;
            proof {
                assert(buf@ =~= spec_debug_rows(cells0, w, height as nat) + seq![' '] + spec_axis(
                    x as nat,
                ));
            }
        }
        buf
    }
}

/// The horizontal border of the rendering: `+`, one dash per column, `+`.
pub open spec fn spec_grid_line(w: nat) -> Seq<char> {
    seq!['+'] + spec_repeat('-', w) + seq!['+']
}

/// The glyphs of the first `x` columns of rendered row `y`: the sun on an
/// occupied place, a space on an empty one.
pub open spec fn spec_row_glyphs(cells: Seq<Cell>, x: nat, y: nat) -> Seq<char>
    decreases x,
{
    if x == 0 {
        Seq::empty()
    } else {
        spec_row_glyphs(cells, (x - 1) as nat, y).push(
            if occupied(cells, mk_place(x - 1, y as int)) {
                '☀'
            } else {
                ' '
            },
        )
    }
}

/// The first `y` rendered grid rows, each framed by `|` and ending in a
/// newline.
pub open spec fn spec_render_rows(cells: Seq<Cell>, w: nat, y: nat) -> Seq<char>
    decreases y,
{
    if y == 0 {
        Seq::empty()
    } else {
        spec_render_rows(cells, w, (y - 1) as nat) + seq!['|'] + spec_row_glyphs(
            cells,
            w,
            (y - 1) as nat,
        ) + seq!['|', '\n']
    }
}

/// The full bordered rendering of a population's grid.
pub open spec fn spec_render(cells: Seq<Cell>, w: nat, h: nat) -> Seq<char> {
    spec_grid_line(w) + seq!['\n'] + spec_render_rows(cells, w, h) + spec_grid_line(w) + seq!['\n']
}

/// The glyphs of the first `x` columns of debug row `y`: `O` on an occupied
/// place, a space on an empty one.
pub open spec fn spec_debug_row_glyphs(cells: Seq<Cell>, x: nat, y: nat) -> Seq<char>
    decreases x,
{
    if x == 0 {
        Seq::empty()
    } else {
        spec_debug_row_glyphs(cells, (x - 1) as nat, y).push(
            if occupied(cells, mk_place(x - 1, y as int)) {
                'O'
            } else {
                ' '
            },
        )
    }
}

/// The first `y` debug rows, each prefixed with its row index and ending in
/// a newline.
pub open spec fn spec_debug_rows(cells: Seq<Cell>, w: nat, y: nat) -> Seq<char>
    decreases y,
{
    if y == 0 {
        Seq::empty()
    } else {
        spec_debug_rows(cells, w, (y - 1) as nat) + spec_dec((y - 1) as nat)
            + spec_debug_row_glyphs(cells, w, (y - 1) as nat) + seq!['\n']
    }
}

/// The column index line of the debug rendering: a space, then the indices.
pub open spec fn spec_axis(w: nat) -> Seq<char>
    decreases w,
{
    if w == 0 {
        Seq::empty()
    } else {
        spec_axis((w - 1) as nat) + spec_dec((w - 1) as nat)
    }
}

/// The full debug rendering of a population's grid.
pub open spec fn spec_debug_render(cells: Seq<Cell>, w: nat, h: nat) -> Seq<char> {
    spec_debug_rows(cells, w, h) + seq![' '] + spec_axis(w)
}

/// The horizontal border line of a population rendering, for the given
/// width.
pub fn generate_line_for_population(width: usize) -> (r: String)
    ensures
        r@ == spec_grid_line(width as nat),
{
    let mut r = String::from_str("+");
    proof {
        reveal_strlit("+");
        reveal_strlit("-");
        assert(r@ =~= seq!['+'] + spec_repeat('-', 0));
    }
    let mut i: usize = 0;
    while i < width
        invariant
            i <= width,
            r@ == seq!['+'] + spec_repeat('-', i as nat),
        decreases width - i,
    {
        r.append("-");
        i = i + 1;
        proof {
            reveal_strlit("-");
            assert(r@ =~= seq!['+'] + spec_repeat('-', i as nat));
        }
    }
    r.append("+");
    proof {
        reveal_strlit("+");
        assert(r@ =~= spec_grid_line(width as nat));
    }
    r
}

/// An empty population of any size stays empty: its scan emits no survivor,
/// no birth and no death, so the next generation again has no cells and
/// unchanged born/died counters.
pub proof fn lemma_empty_population_stays_empty(p: Population)
    requires
        p.cells@.len() == 0,
    ensures
        grid_survivors(p.cells@, p.size.width as int, p.size.height as int).len() == 0,
        grid_births(p.cells@, p.size.width as int, p.size.height as int) == 0,
        grid_deaths(p.cells@, p.size.width as int, p.size.height as int) == 0,
{
    lemma_grid_scan_of_empty(p.cells@, p.size.width as int, p.size.height as int);
}

/// A single living cell has no neighbours and always dies: the next
/// generation has no cells, exactly one more death and no birth.
pub proof fn lemma_single_cell_dies(p: Population)
    requires
        p.inv(),
        p.cells@.len() == 1,
    ensures
        grid_survivors(p.cells@, p.size.width as int, p.size.height as int).len() == 0,
        grid_deaths(p.cells@, p.size.width as int, p.size.height as int) == 1,
        grid_births(p.cells@, p.size.width as int, p.size.height as int) == 0,
{
    let cells = p.cells@;
    assert forall|q: Place| !alive_next(cells, q) by {
        let rest = cells.drop_last();
        assert(rest.len() == 0);
        assert(neighbour_count(rest, q) == 0);
        assert(neighbour_count(cells, q) == neighbour_count(rest, q) + if is_neighbour(
            cells.last().position,
            q,
        ) {
            1nat
        } else {
            0nat
        });
        if occupied(cells, q) {
            let i = choose|i: int| 0 <= i < cells.len() && cells[i].position == q;
            assert(cells.last() == cells[0]);
            assert(cells[0].position == q);
            lemma_dist_sq_self_is_zero(q);
            assert(!is_neighbour(cells[0].position, q));
            assert(neighbour_count(cells, q) == 0);
        }
    }
    lemma_grid_scan_all_die(cells, p.size.width as int, p.size.height as int);
    lemma_grid_occupied_counts_cells(cells, p.size);
}

/// Two neighbouring cells with no other neighbours both die: the next
/// generation has no cells, exactly two more deaths and no birth.
pub proof fn lemma_isolated_pair_dies(p: Population)
    requires
        p.inv(),
        p.cells@.len() == 2,
        is_neighbour(p.cells@[0].position, p.cells@[1].position),
    ensures
        grid_survivors(p.cells@, p.size.width as int, p.size.height as int).len() == 0,
        grid_deaths(p.cells@, p.size.width as int, p.size.height as int) == 2,
        grid_births(p.cells@, p.size.width as int, p.size.height as int) == 0,
{
    let cells = p.cells@;
    let rest = cells.drop_last();
    assert forall|q: Place| !alive_next(cells, q) by {
        assert(rest.len() == 1);
        assert(rest.drop_last().len() == 0);
        assert(neighbour_count(rest.drop_last(), q) == 0);
        assert(rest.last() == cells[0]);
        assert(cells.last() == cells[1]);
        assert(neighbour_count(rest, q) == if is_neighbour(cells[0].position, q) {
            1nat
        } else {
            0nat
        });
        assert(neighbour_count(cells, q) == neighbour_count(rest, q) + if is_neighbour(
            cells[1].position,
            q,
        ) {
            1nat
        } else {
            0nat
        });
        if occupied(cells, q) {
            let i = choose|i: int| 0 <= i < cells.len() && cells[i].position == q;
            if i == 0 {
                lemma_dist_sq_self_is_zero(q);
                assert(!is_neighbour(cells[0].position, q));
                assert(neighbour_count(cells, q) <= 1);
            } else {
                assert(cells[1].position == q);
                lemma_dist_sq_self_is_zero(q);
                assert(!is_neighbour(cells[1].position, q));
                assert(neighbour_count(cells, q) <= 1);
            }
        }
    }
    lemma_grid_scan_all_die(cells, p.size.width as int, p.size.height as int);
    lemma_grid_occupied_counts_cells(cells, p.size);
}

} // verus!
