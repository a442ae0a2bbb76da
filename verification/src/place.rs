//! Grid coordinates and the neighbourhood metric.
//!
//! A [`Place`] is an immutable pair of non-negative coordinates. Two places
//! are neighbours when the Euclidean distance between them lies strictly
//! between 0 and 2; on an integer grid that is exactly the condition
//! `0 < dx*dx + dy*dy < 4` on the squared distance, and it characterises the
//! eight-connected (Moore) neighbourhood.

use crate::text::dec_string;
use crate::text::spec_dec;
use vstd::prelude::*;
use vstd::string::StringExecFns;

verus! {

/// The fixed rendering of a place: `(X, Y)`.
pub open spec fn spec_place_line(p: Place) -> Seq<char> {
    "("@ + spec_dec(p.x as nat) + ", "@ + spec_dec(p.y as nat) + ")"@
}

/// An immutable 2D grid coordinate; equality is by `(x, y)`.
#[derive(Clone, Copy, Debug, PartialEq, Eq, Structural)]
pub struct Place {
    /// X-axis position, starting at zero.
    pub x: usize,
    /// Y-axis position, starting at zero.
    pub y: usize,
}

impl Place {
    /// Create a new place.
    pub fn new(x: usize, y: usize) -> (r: Place)
        ensures
            r == (Place { x, y }),
    {
        Place { x, y }
    }

    /// Get the x-position of this place.
    pub fn get_x(&self) -> (r: usize)
        ensures
            r == self.x,
    {
        self.x
    }

    /// Get the y-position of this place.
    pub fn get_y(&self) -> (r: usize)
        ensures
            r == self.y,
    {
        self.y
    }

    /// Render this place as `(X, Y)`.
    pub fn to_display_string(&self) -> (r: String)
        ensures
            r@ == spec_place_line(*self),
    {
        let mut r = String::from_str("(");
        r.append(dec_string(self.x as u64).as_str());
        r.append(", ");
        r.append(dec_string(self.y as u64).as_str());
        r.append(")");
        proof {
            assert(r@ =~= spec_place_line(*self));
        }
        r
    }
}

/// The squared Euclidean distance between two places,
/// `(b.x - a.x)^2 + (b.y - a.y)^2`.
pub open spec fn dist_sq(a: Place, b: Place) -> int {
    let dx = b.x as int - a.x as int;
    let dy = b.y as int - a.y as int;
    dx * dx + dy * dy
}

/// Two places are neighbours when their Euclidean distance lies strictly
/// between 0 and 2, i.e. their squared distance lies strictly between 0 and 4.
pub open spec fn is_neighbour(a: Place, b: Place) -> bool {
    0 < dist_sq(a, b) < 4
}

/// The distance from a place to itself is zero.
pub proof fn lemma_dist_sq_self_is_zero(p: Place)
    ensures
        dist_sq(p, p) == 0,
{
}

/// The distance between two places does not depend on their order.
pub proof fn lemma_dist_sq_symmetric(a: Place, b: Place)
    ensures
        dist_sq(a, b) == dist_sq(b, a),
{
    let dx = b.x as int - a.x as int;
    let dy = b.y as int - a.y as int;
    assert(dx * dx == (-dx) * (-dx) && dy * dy == (-dy) * (-dy)) by (nonlinear_arith);
}

/// On an integer grid, the distance threshold `0 < d < 2` picks out exactly
/// the eight-connected (Moore) neighbourhood: both coordinate offsets are at
/// most 1 in absolute value and the places differ.
pub proof fn lemma_neighbour_is_moore(a: Place, b: Place)
    ensures
        is_neighbour(a, b) <==> {
            let dx = b.x as int - a.x as int;
            let dy = b.y as int - a.y as int;
            -1 <= dx <= 1 && -1 <= dy <= 1 && !(dx == 0 && dy == 0)
        },
{
    let dx = b.x as int - a.x as int;
    let dy = b.y as int - a.y as int;
    assert((-1 <= dx <= 1 && -1 <= dy <= 1 && !(dx == 0 && dy == 0)) <==> 0 < dx * dx + dy * dy
        < 4) by (nonlinear_arith);
}

/// The signed vector that leads from place `a` to place `b`.
pub fn connection_vector(a: &Place, b: &Place) -> (r: (isize, isize))
    requires
        a.x <= isize::MAX as usize,
        a.y <= isize::MAX as usize,
        b.x <= isize::MAX as usize,
        b.y <= isize::MAX as usize,
    ensures
        r.0 == b.x as int - a.x as int,
        r.1 == b.y as int - a.y as int,
{
    (b.x as isize - a.x as isize, b.y as isize - a.y as isize)
}

/// The squared Euclidean distance between two places.
pub fn distance_squared(a: &Place, b: &Place) -> (r: usize)
    requires
        dist_sq(*a, *b) <= usize::MAX,
    ensures
        r == dist_sq(*a, *b),
{
    let dx = if b.x >= a.x {
        b.x - a.x
    } else {
        a.x - b.x
    };
    let dy = if b.y >= a.y {
        b.y - a.y
    } else {
        a.y - b.y
    };
    proof {
        let sx = b.x as int - a.x as int;
        let sy = b.y as int - a.y as int;
        assert(dx as int * dx as int == sx * sx && dy as int * dy as int == sy * sy)
            by (nonlinear_arith)
            requires
                dx == if sx >= 0 {
                    sx
                } else {
                    -sx
                },
                dy == if sy >= 0 {
                    sy
                } else {
                    -sy
                },
        ;
        assert(sx * sx >= 0 && sy * sy >= 0) by (nonlinear_arith);
    }
    dx * dx + dy * dy
}

/// Whether two places are neighbours on the grid. Agrees with the distance
/// threshold `0 < d < 2` without computing any squared distance, so it is
/// free of overflow for all coordinates.
pub fn places_are_neighbours(a: &Place, b: &Place) -> (r: bool)
    ensures
        r == is_neighbour(*a, *b),
{
    proof {
        lemma_neighbour_is_moore(*a, *b);
    }
    let dx = if b.x >= a.x {
        b.x - a.x
    } else {
        a.x - b.x
    };
    let dy = if b.y >= a.y {
        b.y - a.y
    } else {
        a.y - b.y
    };
    dx <= 1 && dy <= 1 && !(dx == 0 && dy == 0)
}

} // verus!
