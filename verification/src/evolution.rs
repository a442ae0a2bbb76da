//! The mathematical model of one generation transition.
//!
//! The transition scans the grid in row-major order. The spec functions here
//! fold that scan: `row_*` covers the columns `[0, x)` of one row, `grid_*`
//! covers the full rows `[0, y)`. The lemmas relate the fold results to each
//! other and to the cell list, up to the central counting argument: on a
//! population whose cells are unique by position and inside the grid, the
//! scan meets exactly as many occupied places as there are cells.

use crate::cell::Cell;
use crate::dimension::Dimension;
use crate::place::Place;
use crate::population::cells_in_grid;
use crate::population::find_cell;
use crate::population::in_grid;
use crate::population::lemma_find_cell_occupied;
use crate::population::neighbour_count;
use crate::population::occupied;
use crate::population::spec_should_die;
use crate::population::spec_should_spawn;
use crate::population::unique_positions;
use vstd::prelude::*;

verus! {

/// The place in column `x` of row `y`.
pub open spec fn mk_place(x: int, y: int) -> Place
    recommends
        0 <= x <= usize::MAX,
        0 <= y <= usize::MAX,
{
    Place { x: x as usize, y: y as usize }
}

/// Whether the place `p` holds a living cell in the next generation of
/// `cells`: an occupied place survives exactly on two or three neighbours,
/// an empty place spawns exactly on three.
pub open spec fn alive_next(cells: Seq<Cell>, p: Place) -> bool {
    if occupied(cells, p) {
        !spec_should_die(neighbour_count(cells, p))
    } else {
        spec_should_spawn(neighbour_count(cells, p))
    }
}

/// The cell that the scan emits for a place that stays alive: the stored
/// cell for a survivor, a fresh cell for a newborn.
pub open spec fn cell_for(cells: Seq<Cell>, p: Place) -> Cell {
    if occupied(cells, p) {
        find_cell(cells, p)->Some_0
    } else {
        Cell { position: p, is_dead: false }
    }
}

/// The survivors that the scan of columns `[0, x)` of row `y` emits.
pub open spec fn row_survivors(cells: Seq<Cell>, y: int, x: int) -> Seq<Cell>
    decreases x,
{
    if x <= 0 {
        Seq::empty()
    } else {
        let prev = row_survivors(cells, y, x - 1);
        let p = mk_place(x - 1, y);
        if alive_next(cells, p) {
            prev.push(cell_for(cells, p))
        } else {
            prev
        }
    }
}

/// How many of the columns `[0, x)` of row `y` hold a cell that dies.
pub open spec fn row_deaths(cells: Seq<Cell>, y: int, x: int) -> nat
    decreases x,
{
    if x <= 0 {
        0
    } else {
        row_deaths(cells, y, x - 1) + {
            let p = mk_place(x - 1, y);
            if occupied(cells, p) && spec_should_die(neighbour_count(cells, p)) {
                1nat
            } else {
                0nat
            }
        }
    }
}

/// How many of the columns `[0, x)` of row `y` are empty and spawn a cell.
pub open spec fn row_births(cells: Seq<Cell>, y: int, x: int) -> nat
    decreases x,
{
    if x <= 0 {
        0
    } else {
        row_births(cells, y, x - 1) + {
            let p = mk_place(x - 1, y);
            if !occupied(cells, p) && spec_should_spawn(neighbour_count(cells, p)) {
                1nat
            } else {
                0nat
            }
        }
    }
}

/// How many of the columns `[0, x)` of row `y` hold a cell.
pub open spec fn row_occupied(cells: Seq<Cell>, y: int, x: int) -> nat
    decreases x,
{
    if x <= 0 {
        0
    } else {
        row_occupied(cells, y, x - 1) + if occupied(cells, mk_place(x - 1, y)) {
            1nat
        } else {
            0nat
        }
    }
}

/// The survivors that the scan of the full rows `[0, y)` emits on a grid
/// `w` columns wide.
pub open spec fn grid_survivors(cells: Seq<Cell>, w: int, y: int) -> Seq<Cell>
    decreases y,
{
    if y <= 0 {
        Seq::empty()
    } else {
        grid_survivors(cells, w, y - 1) + row_survivors(cells, y - 1, w)
    }
}

/// How many places of the full rows `[0, y)` hold a cell that dies.
pub open spec fn grid_deaths(cells: Seq<Cell>, w: int, y: int) -> nat
    decreases y,
{
    if y <= 0 {
        0
    } else {
        grid_deaths(cells, w, y - 1) + row_deaths(cells, y - 1, w)
    }
}

/// How many places of the full rows `[0, y)` are empty and spawn a cell.
pub open spec fn grid_births(cells: Seq<Cell>, w: int, y: int) -> nat
    decreases y,
{
    if y <= 0 {
        0
    } else {
        grid_births(cells, w, y - 1) + row_births(cells, y - 1, w)
    }
}

/// How many places of the full rows `[0, y)` hold a cell.
pub open spec fn grid_occupied(cells: Seq<Cell>, w: int, y: int) -> nat
    decreases y,
{
    if y <= 0 {
        0
    } else {
        grid_occupied(cells, w, y - 1) + row_occupied(cells, y - 1, w)
    }
}

/// Each scanned place contributes one survivor, one death, or at most one
/// birth, so the counts balance along one row.
pub proof fn lemma_row_balance(cells: Seq<Cell>, y: int, x: int)
    ensures
        row_survivors(cells, y, x).len() + row_deaths(cells, y, x) == row_occupied(cells, y, x)
            + row_births(cells, y, x),
    decreases x,
{
    if x > 0 {
        lemma_row_balance(cells, y, x - 1);
    }
}

/// The survivor, death, occupancy and birth counts balance over the grid.
pub proof fn lemma_grid_balance(cells: Seq<Cell>, w: int, y: int)
    ensures
        grid_survivors(cells, w, y).len() + grid_deaths(cells, w, y) == grid_occupied(cells, w, y)
            + grid_births(cells, w, y),
    decreases y,
{
    if y > 0 {
        lemma_grid_balance(cells, w, y - 1);
        lemma_row_balance(cells, y - 1, w);
    }
}

/// Deaths happen only at occupied places.
pub proof fn lemma_row_deaths_le_occupied(cells: Seq<Cell>, y: int, x: int)
    ensures
        row_deaths(cells, y, x) <= row_occupied(cells, y, x),
    decreases x,
{
    if x > 0 {
        lemma_row_deaths_le_occupied(cells, y, x - 1);
    }
}

/// Deaths happen only at occupied places.
pub proof fn lemma_grid_deaths_le_occupied(cells: Seq<Cell>, w: int, y: int)
    ensures
        grid_deaths(cells, w, y) <= grid_occupied(cells, w, y),
    decreases y,
{
    if y > 0 {
        lemma_grid_deaths_le_occupied(cells, w, y - 1);
        lemma_row_deaths_le_occupied(cells, y - 1, w);
    }
}

/// At most one birth per scanned place.
pub proof fn lemma_row_births_le_places(cells: Seq<Cell>, y: int, x: int)
    requires
        0 <= x,
    ensures
        row_births(cells, y, x) <= x,
    decreases x,
{
    if x > 0 {
        lemma_row_births_le_places(cells, y, x - 1);
    }
}

/// At most one birth per scanned place.
pub proof fn lemma_grid_births_le_places(cells: Seq<Cell>, w: int, y: int)
    requires
        0 <= w,
        0 <= y,
    ensures
        grid_births(cells, w, y) <= w * y,
    decreases y,
{
    if y > 0 {
        lemma_grid_births_le_places(cells, w, y - 1);
        lemma_row_births_le_places(cells, y - 1, w);
        assert(w * (y - 1) + w == w * y) by (nonlinear_arith);
    }
}

/// Scanning more columns meets at least as many occupied places.
pub proof fn lemma_row_occupied_monotone(cells: Seq<Cell>, y: int, x1: int, x2: int)
    requires
        x1 <= x2,
    ensures
        row_occupied(cells, y, x1) <= row_occupied(cells, y, x2),
    decreases x2 - x1,
{
    if x1 < x2 {
        lemma_row_occupied_monotone(cells, y, x1, x2 - 1);
    }
}

/// Scanning more rows meets at least as many occupied places.
pub proof fn lemma_grid_occupied_monotone(cells: Seq<Cell>, w: int, y1: int, y2: int)
    requires
        y1 <= y2,
    ensures
        grid_occupied(cells, w, y1) <= grid_occupied(cells, w, y2),
    decreases y2 - y1,
{
    if y1 < y2 {
        lemma_grid_occupied_monotone(cells, w, y1, y2 - 1);
    }
}

/// Pushing one more cell extends the occupancy of single places.
pub proof fn lemma_occupied_push(cells: Seq<Cell>, c: Cell, p: Place)
    ensures
        occupied(cells.push(c), p) <==> (occupied(cells, p) || c.position == p),
{
    if occupied(cells, p) {
        let i = choose|i: int| 0 <= i < cells.len() && cells[i].position == p;
        assert(cells.push(c)[i] == cells[i]);
        assert(occupied(cells.push(c), p));
    }
    if c.position == p {
        assert(cells.push(c)[cells.len() as int] == c);
        assert(occupied(cells.push(c), p));
    }
    if occupied(cells.push(c), p) {
        let i = choose|i: int| 0 <= i < cells.push(c).len() && cells.push(c)[i].position == p;
        if i < cells.len() {
            assert(cells.push(c)[i] == cells[i]);
            assert(occupied(cells, p));
        } else {
            assert(cells.push(c)[i] == c);
        }
    }
}

/// A scan over no cells meets no occupied place.
pub proof fn lemma_row_occupied_empty(cells: Seq<Cell>, y: int, x: int)
    requires
        cells.len() == 0,
    ensures
        row_occupied(cells, y, x) == 0,
    decreases x,
{
    if x > 0 {
        lemma_row_occupied_empty(cells, y, x - 1);
    }
}

/// A scan over no cells meets no occupied place.
pub proof fn lemma_grid_occupied_empty(cells: Seq<Cell>, w: int, y: int)
    requires
        cells.len() == 0,
    ensures
        grid_occupied(cells, w, y) == 0,
    decreases y,
{
    if y > 0 {
        lemma_grid_occupied_empty(cells, w, y - 1);
        lemma_row_occupied_empty(cells, y - 1, w);
    }
}

/// One more cell at a fresh position raises the occupancy count of a row by
/// one exactly when the row scan passes that position.
pub proof fn lemma_row_occupied_push(cells: Seq<Cell>, c: Cell, y: int, x: int)
    requires
        0 <= x <= usize::MAX,
        0 <= y <= usize::MAX,
        !occupied(cells, c.position),
    ensures
        row_occupied(cells.push(c), y, x) == row_occupied(cells, y, x) + if c.position.y == y
            && c.position.x < x {
            1int
        } else {
            0int
        },
    decreases x,
{
    if x > 0 {
        lemma_row_occupied_push(cells, c, y, x - 1);
        lemma_occupied_push(cells, c, mk_place(x - 1, y));
    }
}

/// One more cell at a fresh position inside the columns raises the occupancy
/// count of the grid by one exactly when the scan passes its row.
pub proof fn lemma_grid_occupied_push(cells: Seq<Cell>, c: Cell, w: int, y: int)
    requires
        0 <= w <= usize::MAX,
        0 <= y <= usize::MAX,
        !occupied(cells, c.position),
        c.position.x < w,
    ensures
        grid_occupied(cells.push(c), w, y) == grid_occupied(cells, w, y) + if c.position.y < y {
            1int
        } else {
            0int
        },
    decreases y,
{
    if y > 0 {
        lemma_grid_occupied_push(cells, c, w, y - 1);
        lemma_row_occupied_push(cells, c, y - 1, w);
    }
}

/// The counting argument: when the cells are unique by position and inside
/// the grid, the scan meets exactly one occupied place per cell.
pub proof fn lemma_grid_occupied_counts_cells(cells: Seq<Cell>, d: Dimension)
    requires
        unique_positions(cells),
        cells_in_grid(cells, d),
    ensures
        grid_occupied(cells, d.width as int, d.height as int) == cells.len(),
    decreases cells.len(),
{
    let w = d.width as int;
    let h = d.height as int;
    if cells.len() == 0 {
        lemma_grid_occupied_empty(cells, w, h);
    } else {
        let prefix = cells.drop_last();
        let c = cells.last();
        assert(cells =~= prefix.push(c));
        assert(forall|i: int| 0 <= i < prefix.len() ==> prefix[i] == cells[i]);
        assert(in_grid(cells[cells.len() - 1].position, d));
        lemma_grid_occupied_counts_cells(prefix, d);
        assert(!occupied(prefix, c.position)) by {
            if occupied(prefix, c.position) {
                let i = choose|i: int|
                    0 <= i < prefix.len() && prefix[i].position == c.position;
                assert(cells[i].position == cells[cells.len() - 1].position);
            }
        }
        lemma_grid_occupied_push(prefix, c, w, h);
    }
}

/// What the scan emits: every survivor sits inside the scanned range, is the
/// cell the rule keeps alive at its place, and within one row the columns
/// strictly increase.
pub proof fn lemma_row_survivors_wf(cells: Seq<Cell>, y: int, x: int)
    requires
        0 <= x <= usize::MAX,
        0 <= y <= usize::MAX,
    ensures
        ({
            let s = row_survivors(cells, y, x);
            &&& forall|k: int|
                0 <= k < s.len() ==> (#[trigger] s[k].position).y == y && s[k].position.x < x
                    && alive_next(cells, s[k].position) && s[k] == cell_for(cells, s[k].position)
            &&& forall|k1: int, k2: int|
                0 <= k1 < k2 < s.len() ==> s[k1].position.x < s[k2].position.x
        }),
    decreases x,
{
    if x > 0 {
        lemma_row_survivors_wf(cells, y, x - 1);
        let p = mk_place(x - 1, y);
        let prev = row_survivors(cells, y, x - 1);
        let s = row_survivors(cells, y, x);
        if alive_next(cells, p) {
            if occupied(cells, p) {
                lemma_find_cell_occupied(cells, p);
            }
            assert(cell_for(cells, p).position == p);
            assert(s =~= prev.push(cell_for(cells, p)));
            assert forall|k: int|
                0 <= k < s.len() implies (#[trigger] s[k].position).y == y && s[k].position.x < x
                && alive_next(cells, s[k].position) && s[k] == cell_for(
                cells,
                s[k].position,
            ) by {
                if k < prev.len() {
                    assert(s[k] == prev[k]);
                } else {
                    assert(s[k] == cell_for(cells, p));
                }
            }
            assert forall|k1: int, k2: int|
                0 <= k1 < k2 < s.len() implies s[k1].position.x < s[k2].position.x by {
                assert(s[k1] == prev[k1]);
                if k2 < prev.len() {
                    assert(s[k2] == prev[k2]);
                } else {
                    assert(s[k2] == cell_for(cells, p));
                }
            }
        } else {
            assert(s =~= prev);
        }
    }
}

/// What the grid scan emits: every survivor lies inside the grid, is the
/// cell the rule keeps alive at its place, and no two survivors share a
/// position.
pub proof fn lemma_grid_survivors_wf(cells: Seq<Cell>, w: int, y: int)
    requires
        0 <= w <= usize::MAX,
        0 <= y <= usize::MAX,
    ensures
        ({
            let s = grid_survivors(cells, w, y);
            &&& forall|k: int|
                0 <= k < s.len() ==> (#[trigger] s[k].position).y < y && s[k].position.x < w
                    && alive_next(cells, s[k].position) && s[k] == cell_for(cells, s[k].position)
            &&& unique_positions(s)
        }),
    decreases y,
{
    if y > 0 {
        lemma_grid_survivors_wf(cells, w, y - 1);
        lemma_row_survivors_wf(cells, y - 1, w);
        let s1 = grid_survivors(cells, w, y - 1);
        let s2 = row_survivors(cells, y - 1, w);
        let s = grid_survivors(cells, w, y);
        assert(forall|k: int| 0 <= k < s1.len() ==> s[k] == s1[k]);
        assert(forall|k: int|
            s1.len() <= k < s.len() ==> s[k] == s2[k - s1.len()]);
        assert forall|k1: int, k2: int|
            0 <= k1 < k2 < s.len() implies s[k1].position != s[k2].position by {
            if k2 < s1.len() {
            } else if k1 >= s1.len() {
                assert(s[k1].position.x != s[k2].position.x);
            } else {
                assert(s[k1].position.y < y - 1 && s[k2].position.y == y - 1);
            }
        }
    }
}

/// A place inside the scanned columns whose cell stays alive shows up among
/// the row's survivors.
pub proof fn lemma_row_survivors_membership(cells: Seq<Cell>, y: int, x: int, q: Place)
    requires
        0 <= x <= usize::MAX,
        0 <= y <= usize::MAX,
        q.y == y,
        q.x < x,
        alive_next(cells, q),
    ensures
        occupied(row_survivors(cells, y, x), q),
    decreases x,
{
    let s = row_survivors(cells, y, x);
    let p = mk_place(x - 1, y);
    if q.x == x - 1 {
        assert(p == q);
        if occupied(cells, q) {
            lemma_find_cell_occupied(cells, q);
        }
        assert(s[s.len() - 1] == cell_for(cells, q));
        assert(s[s.len() - 1].position == q);
    } else {
        lemma_row_survivors_membership(cells, y, x - 1, q);
        let prev = row_survivors(cells, y, x - 1);
        let i = choose|i: int| 0 <= i < prev.len() && prev[i].position == q;
        assert(s[i] == prev[i]);
    }
}

/// A place inside the grid whose cell stays alive shows up among the
/// survivors of the grid scan.
pub proof fn lemma_grid_survivors_membership(cells: Seq<Cell>, w: int, y: int, q: Place)
    requires
        0 <= w <= usize::MAX,
        0 <= y <= usize::MAX,
        q.y < y,
        q.x < w,
        alive_next(cells, q),
    ensures
        occupied(grid_survivors(cells, w, y), q),
    decreases y,
{
    let s = grid_survivors(cells, w, y);
    let s1 = grid_survivors(cells, w, y - 1);
    let s2 = row_survivors(cells, y - 1, w);
    if q.y == y - 1 {
        lemma_row_survivors_membership(cells, y - 1, w, q);
        let i = choose|i: int| 0 <= i < s2.len() && s2[i].position == q;
        assert(s[s1.len() + i] == s2[i]);
    } else {
        lemma_grid_survivors_membership(cells, w, y - 1, q);
        let i = choose|i: int| 0 <= i < s1.len() && s1[i].position == q;
        assert(s[i] == s1[i]);
    }
}

/// The next generation holds a cell at a place exactly when the place lies
/// inside the grid and the rule table keeps it alive.
pub proof fn lemma_grid_survivors_characterised(cells: Seq<Cell>, d: Dimension)
    ensures
        forall|q: Place|
            occupied(grid_survivors(cells, d.width as int, d.height as int), q) <==> (in_grid(q, d)
                && alive_next(cells, q)),
{
    let w = d.width as int;
    let h = d.height as int;
    lemma_grid_survivors_wf(cells, w, h);
    assert forall|q: Place|
        occupied(grid_survivors(cells, w, h), q) <==> (in_grid(q, d) && alive_next(
            cells,
            q,
        )) by {
        if in_grid(q, d) && alive_next(cells, q) {
            lemma_grid_survivors_membership(cells, w, h, q);
        }
        if occupied(grid_survivors(cells, w, h), q) {
            let s = grid_survivors(cells, w, h);
            let i = choose|i: int| 0 <= i < s.len() && s[i].position == q;
            assert(alive_next(cells, s[i].position));
        }
    }
}

/// A scan of a population without cells emits nothing: no survivor, no
/// death, no birth.
pub proof fn lemma_row_scan_of_empty(cells: Seq<Cell>, y: int, x: int)
    requires
        cells.len() == 0,
    ensures
        row_survivors(cells, y, x).len() == 0,
        row_deaths(cells, y, x) == 0,
        row_births(cells, y, x) == 0,
    decreases x,
{
    if x > 0 {
        lemma_row_scan_of_empty(cells, y, x - 1);
        let p = mk_place(x - 1, y);
        assert(!occupied(cells, p));
        assert(neighbour_count(cells, p) == 0);
    }
}

/// A scan of a population without cells emits nothing: no survivor, no
/// death, no birth.
pub proof fn lemma_grid_scan_of_empty(cells: Seq<Cell>, w: int, y: int)
    requires
        cells.len() == 0,
    ensures
        grid_survivors(cells, w, y).len() == 0,
        grid_deaths(cells, w, y) == 0,
        grid_births(cells, w, y) == 0,
    decreases y,
{
    if y > 0 {
        lemma_grid_scan_of_empty(cells, w, y - 1);
        lemma_row_scan_of_empty(cells, y - 1, w);
    }
}

/// When no place stays alive, the scan emits no survivor and no birth, and
/// folds every occupied place into a death.
pub proof fn lemma_row_scan_all_die(cells: Seq<Cell>, y: int, x: int)
    requires
        forall|q: Place| !alive_next(cells, q),
    ensures
        row_survivors(cells, y, x).len() == 0,
        row_births(cells, y, x) == 0,
        row_deaths(cells, y, x) == row_occupied(cells, y, x),
    decreases x,
{
    if x > 0 {
        lemma_row_scan_all_die(cells, y, x - 1);
        assert(!alive_next(cells, mk_place(x - 1, y)));
    }
}

/// When no place stays alive, the scan emits no survivor and no birth, and
/// folds every occupied place into a death.
pub proof fn lemma_grid_scan_all_die(cells: Seq<Cell>, w: int, y: int)
    requires
        forall|q: Place| !alive_next(cells, q),
    ensures
        grid_survivors(cells, w, y).len() == 0,
        grid_births(cells, w, y) == 0,
        grid_deaths(cells, w, y) == grid_occupied(cells, w, y),
    decreases y,
{
    if y > 0 {
        lemma_grid_scan_all_die(cells, w, y - 1);
        lemma_row_scan_all_die(cells, y - 1, w);
    }
}

} // verus!
