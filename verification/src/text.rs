//! Verified text building blocks: decimal rendering of numbers, repeated
//! characters, and left-padding to a fixed column width. The display methods
//! of the other modules assemble their fixed-format lines from these.

use vstd::prelude::*;
use vstd::string::StrSliceExecFns;
use vstd::string::StringExecFns;

verus! {

/// The decimal digit character for a value below ten.
pub open spec fn digit_char(d: nat) -> char {
    if d == 0 {
        '0'
    } else if d == 1 {
        '1'
    } else if d == 2 {
        '2'
    } else if d == 3 {
        '3'
    } else if d == 4 {
        '4'
    } else if d == 5 {
        '5'
    } else if d == 6 {
        '6'
    } else if d == 7 {
        '7'
    } else if d == 8 {
        '8'
    } else {
        '9'
    }
}

/// The decimal representation of a number, most significant digit first,
/// without leading zeroes (a single `'0'` for zero).
pub open spec fn spec_dec(n: nat) -> Seq<char>
    decreases n,
{
    if n < 10 {
        seq![digit_char(n)]
    } else {
        spec_dec(n / 10).push(digit_char(n % 10))
    }
}

/// The character `c` repeated `n` times.
pub open spec fn spec_repeat(c: char, n: nat) -> Seq<char>
    decreases n,
{
    if n == 0 {
        Seq::empty()
    } else {
        spec_repeat(c, (n - 1) as nat).push(c)
    }
}

/// `s` padded on the left with spaces to width `w`; unchanged when it is
/// already at least that wide.
pub open spec fn spec_pad_left(s: Seq<char>, w: nat) -> Seq<char> {
    if s.len() >= w {
        s
    } else {
        spec_repeat(' ', (w - s.len()) as nat) + s
    }
}

/// The one-character string for a decimal digit.
fn digit_str(d: u64) -> (r: &'static str)
    requires
        d < 10,
    ensures
        r@.len() == 1,
        r@[0] == digit_char(d as nat),
{
    proof {
        reveal_strlit("0");
        reveal_strlit("1");
        reveal_strlit("2");
        reveal_strlit("3");
        reveal_strlit("4");
        reveal_strlit("5");
        reveal_strlit("6");
        reveal_strlit("7");
        reveal_strlit("8");
        reveal_strlit("9");
    }
    match d {
        0 => "0",
        1 => "1",
        2 => "2",
        3 => "3",
        4 => "4",
        5 => "5",
        6 => "6",
        7 => "7",
        8 => "8",
        _ => "9",
    }
}

/// Render a number in decimal, most significant digit first.
pub fn dec_string(n: u64) -> (r: String)
    ensures
        r@ == spec_dec(n as nat),
    decreases n,
{
    if n < 10 {
        let r = String::from_str(digit_str(n));
        proof {
            assert(r@ =~= spec_dec(n as nat));
        }
        r
    } else {
        let mut r = dec_string(n / 10);
        r.append(digit_str(n % 10));
        proof {
            assert(r@ =~= spec_dec(n as nat));
        }
        r
    }
}

/// Pad a string on the left with spaces to the given column width.
pub fn pad_left(s: String, width: usize) -> (r: String)
    ensures
        r@ == spec_pad_left(s@, width as nat),
{
    let n = s.as_str().unicode_len();
    if n >= width {
        return s;
    }
    let mut r = String::new();
    let mut i: usize = n;
    while i < width
        invariant
            n <= i <= width,
            r@ == spec_repeat(' ', (i - n) as nat),
        decreases width - i,
    {
        r.append(" ");
        proof {
            reveal_strlit(" ");
            assert(r@ =~= spec_repeat(' ', (i + 1 - n) as nat));
        }
        i = i + 1;
    }
    let r = r.concat(s.as_str());
    proof {
        assert(r@ =~= spec_pad_left(s@, width as nat));
    }
    r
}

} // verus!
