//! The width/height pair that bounds the grid.

use crate::text::dec_string;
use crate::text::spec_dec;
use vstd::prelude::*;
use vstd::string::StringExecFns;

verus! {

/// An immutable width/height pair; the grid positions are
/// `[0, width) x [0, height)`.
#[derive(Clone, Copy, Debug, PartialEq, Eq, Structural)]
pub struct Dimension {
    /// Number of columns.
    pub width: usize,
    /// Number of rows.
    pub height: usize,
}

/// The fixed rendering of a dimension: `(WxH)`.
pub open spec fn spec_dimension_line(d: Dimension) -> Seq<char> {
    "("@ + spec_dec(d.width as nat) + "x"@ + spec_dec(d.height as nat) + ")"@
}

impl Dimension {
    /// Create new dimension.
    pub fn new(width: usize, height: usize) -> (r: Dimension)
        ensures
            r == (Dimension { width, height }),
    {
        Dimension { width, height }
    }

    /// Get width of dimension.
    pub fn get_width(&self) -> (r: usize)
        ensures
            r == self.width,
    {
        self.width
    }

    /// Get height of dimension.
    pub fn get_height(&self) -> (r: usize)
        ensures
            r == self.height,
    {
        self.height
    }

    /// Render this dimension as `(WxH)`.
    pub fn to_display_string(&self) -> (r: String)
        ensures
            r@ == spec_dimension_line(*self),
    {
        let mut r = String::from_str("(");
        r.append(dec_string(self.width as u64).as_str());
        r.append("x");
        r.append(dec_string(self.height as u64).as_str());
        r.append(")");
        proof {
            assert(r@ =~= spec_dimension_line(*self));
        }
        r
    }
}

} // verus!
