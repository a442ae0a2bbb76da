//! Game configuration and the validation of its option strings.
//!
//! Each option value arrives as a string. A value is accepted when it is an
//! unsigned decimal numeral (an optional leading plus sign, then at least one
//! digit) whose value fits the option's integer type and is at least one;
//! the first violation, checked in the order width, height, sleep, ratio,
//! yields the option's fixed error message.

use crate::text::dec_string;
use crate::text::pad_left;
use crate::text::spec_dec;
use crate::text::spec_pad_left;
use vstd::prelude::*;
use vstd::string::StrSliceExecFns;
use vstd::string::StringExecFns;

verus! {

/// Whether `c` is a decimal digit.
pub open spec fn is_digit(c: char) -> bool {
    '0' <= c && c <= '9'
}

/// The numeric value of a digit character.
pub open spec fn digit_value(c: char) -> nat
    recommends
        is_digit(c),
{
    (c as u32 - '0' as u32) as nat
}

/// Whether every character of `s` is a decimal digit.
pub open spec fn all_digits(s: Seq<char>) -> bool {
    forall|i: int| 0 <= i < s.len() ==> is_digit(#[trigger] s[i])
}

/// The numeric value of a digit string, most significant digit first.
pub open spec fn digits_value(s: Seq<char>) -> nat
    decreases s.len(),
{
    if s.len() == 0 {
        0
    } else {
        digits_value(s.drop_last()) * 10 + digit_value(s.last())
    }
}

/// The digits of a numeral: an optional leading plus sign is dropped.
pub open spec fn numeral_digits(s: Seq<char>) -> Seq<char> {
    if s.len() > 0 && s[0] == '+' {
        s.skip(1)
    } else {
        s
    }
}

/// Whether `s` is a well-formed unsigned decimal numeral: an optional
/// leading plus sign, then at least one digit and nothing else.
pub open spec fn is_numeral(s: Seq<char>) -> bool {
    numeral_digits(s).len() > 0 && all_digits(numeral_digits(s))
}

/// The numeric value of a numeral.
pub open spec fn numeral_value(s: Seq<char>) -> nat {
    digits_value(numeral_digits(s))
}

/// A longer digit string never has a smaller value.
proof fn lemma_digits_value_prefix_le(s: Seq<char>, k: int)
    requires
        0 <= k <= s.len(),
    ensures
        digits_value(s.take(k)) <= digits_value(s),
    decreases s.len() - k,
{
    if k < s.len() {
        lemma_digits_value_prefix_le(s, k + 1);
        assert(s.take(k + 1).drop_last() =~= s.take(k));
        assert(digits_value(s.take(k + 1)) == digits_value(s.take(k)) * 10 + digit_value(
            s.take(k + 1).last(),
        ));
    } else {
        assert(s.take(k) =~= s);
    }
}

/// Parse an unsigned decimal numeral of value at most `max`. Accepts an
/// optional leading plus sign; rejects anything with other characters, an
/// empty digit string, or a value above `max`.
#[verifier::loop_isolation(false)]
pub fn parse_bounded(s: &str, max: u64) -> (r: Option<u64>)
    ensures
        r is Some <==> is_numeral(s@) && numeral_value(s@) <= max,
        r matches Some(v) ==> v == numeral_value(s@),
{
    let len = s.unicode_len();
    let start: usize = if len > 0 && s.get_char(0) == '+' {
        1
    } else {
        0
    };
    let ghost digits = numeral_digits(s@);
    proof {
        assert(digits =~= s@.skip(start as int));
    }
    if start >= len {
        return None;
    }
    let mut value: u64 = 0;
    let mut i: usize = start;
    while i < len
        invariant
            start <= i <= len,
            all_digits(digits.take(i - start)),
            value == digits_value(digits.take(i - start)),
            value <= max,
        decreases len - i,
    {
        let c = s.get_char(i);
        if !(c >= '0' && c <= '9') {
            proof {
                assert(digits[i - start] == c);
                assert(!all_digits(digits));
            }
            return None;
        }
        let d = (c as u32 - '0' as u32) as u64;
        if d > max || value > (max - d) / 10 {
            proof {
                assert(digits.take(i - start + 1).drop_last() =~= digits.take(i - start));
                assert(digits.take(i - start + 1).last() == c);
                if d > max {
                    assert(digits_value(digits.take(i - start + 1)) >= d);
                } else {
                    assert(value * 10 + d > max) by (nonlinear_arith)
                        requires
                            value > (max - d) / 10,
                            0 <= d <= max,
                    ;
                }
                assert(digits_value(digits.take(i - start + 1)) > max);
                if is_numeral(s@) {
                    lemma_digits_value_prefix_le(digits, i - start + 1);
                }
            }
            return None;
        }
        proof {
            assert(digits.take(i - start + 1).drop_last() =~= digits.take(i - start));
            assert(digits.take(i - start + 1).last() == c);
            assert(value * 10 + d <= max) by (nonlinear_arith)
                requires
                    value <= (max - d) / 10,
                    0 <= d <= max,
            ;
        }
        value = value * 10 + d;
        i = i + 1;
    }
    proof {
        assert(digits.take(i - start) =~= digits);
    }
    Some(value)
}

/// Parse an unsigned decimal numeral into the pointer-size range.
pub fn parse_usize(s: &str) -> (r: Option<usize>)
    ensures
        r is Some <==> is_numeral(s@) && numeral_value(s@) <= usize::MAX,
        r matches Some(v) ==> v == numeral_value(s@),
{
    match parse_bounded(s, usize::MAX as u64) {
        Some(v) => Some(v as usize),
        None => None,
    }
}

/// Parse an unsigned decimal numeral into the 64-bit range.
pub fn parse_u64(s: &str) -> (r: Option<u64>)
    ensures
        r is Some <==> is_numeral(s@) && numeral_value(s@) <= u64::MAX,
        r matches Some(v) ==> v == numeral_value(s@),
{
    parse_bounded(s, u64::MAX)
}

/// Parse an unsigned decimal numeral into the 32-bit range.
pub fn parse_u32(s: &str) -> (r: Option<u32>)
    ensures
        r is Some <==> is_numeral(s@) && numeral_value(s@) <= u32::MAX,
        r matches Some(v) ==> v == numeral_value(s@),
{
    match parse_bounded(s, u32::MAX as u64) {
        Some(v) => Some(v as u32),
        None => None,
    }
}

/// The fixed error message for an option value that is no unsigned numeral.
pub open spec fn spec_error_not_number(name: Seq<char>) -> Seq<char> {
    "Bad option: Not negative number expected as option '--"@ + name + "'!"@
}

/// The fixed error message for an option value below the option's minimum.
pub open spec fn spec_error_too_small(name: Seq<char>, min: nat) -> Seq<char> {
    "Bad option: Too small value for option '--"@ + name + "' given! Minimum is "@ + spec_dec(min)
        + "."@
}

/// Build the error message for an option value that is no unsigned numeral.
pub fn error_bad_option_not_number(name: &str) -> (r: String)
    ensures
        r@ == spec_error_not_number(name@),
{
    let mut r = String::from_str("Bad option: Not negative number expected as option '--");
    r.append(name);
    r.append("'!");
    proof {
        assert(r@ =~= spec_error_not_number(name@));
    }
    r
}

/// Build the error message for an option value below the given minimum.
pub fn error_bad_option_to_small(name: &str, min: usize) -> (r: String)
    ensures
        r@ == spec_error_too_small(name@, min as nat),
{
    let mut r = String::from_str("Bad option: Too small value for option '--");
    r.append(name);
    r.append("' given! Minimum is ");
    r.append(dec_string(min as u64).as_str());
    r.append(".");
    proof {
        assert(r@ =~= spec_error_too_small(name@, min as nat));
    }
    r
}

/// This struct holds the configuration for the game.
#[derive(Clone, Copy, Debug, PartialEq, Eq, Structural)]
pub struct Config {
    /// Number of columns of the population's space.
    pub width: usize,
    /// Number of rows of the population's space.
    pub height: usize,
    /// Seconds to sleep between the population's iterations.
    pub sleep: u64,
    /// The probability ratio for generating the initial population.
    pub ratio: u32,
}

/// The fixed rendering of a configuration, every value right-aligned in five
/// columns.
pub open spec fn spec_config_line(c: Config) -> Seq<char> {
    "Width:     "@ + spec_pad_left(spec_dec(c.width as nat), 5) + ", Height: "@ + spec_pad_left(
        spec_dec(c.height as nat),
        5,
    ) + ", Sleep: "@ + spec_pad_left(spec_dec(c.sleep as nat), 5) + ", Ratio: "@ + spec_pad_left(
        spec_dec(c.ratio as nat),
        5,
    )
}

/// The outcome owed for the four option strings, checked in the order width,
/// height, sleep, ratio; for each option the numeral check precedes the
/// minimum check, and each option must be at least one.
pub open spec fn spec_validate(
    w: Seq<char>,
    h: Seq<char>,
    sl: Seq<char>,
    ra: Seq<char>,
) -> Result<Config, Seq<char>> {
    if !(is_numeral(w) && numeral_value(w) <= usize::MAX) {
        Err(spec_error_not_number("width"@))
    } else if numeral_value(w) < 1 {
        Err(spec_error_too_small("width"@, 1))
    } else if !(is_numeral(h) && numeral_value(h) <= usize::MAX) {
        Err(spec_error_not_number("height"@))
    } else if numeral_value(h) < 1 {
        Err(spec_error_too_small("height"@, 1))
    } else if !(is_numeral(sl) && numeral_value(sl) <= u64::MAX) {
        Err(spec_error_not_number("sleep"@))
    } else if numeral_value(sl) < 1 {
        Err(spec_error_too_small("sleep"@, 1))
    } else if !(is_numeral(ra) && numeral_value(ra) <= u32::MAX) {
        Err(spec_error_not_number("ratio"@))
    } else if numeral_value(ra) < 1 {
        Err(spec_error_too_small("ratio"@, 1))
    } else {
        Ok(
            Config {
                width: numeral_value(w) as usize,
                height: numeral_value(h) as usize,
                sleep: numeral_value(sl) as u64,
                ratio: numeral_value(ra) as u32,
            },
        )
    }
}

/// Validate the four option strings and build the configuration, or report
/// the first violation with its fixed error message.
pub fn validate_config(width: &str, height: &str, sleep: &str, ratio: &str) -> (r: Result<
    Config,
    String,
>)
    ensures
        r is Ok <==> spec_validate(width@, height@, sleep@, ratio@) is Ok,
        r matches Ok(c) ==> spec_validate(width@, height@, sleep@, ratio@) matches Ok(cs) && c
            == cs,
        r matches Err(e) ==> spec_validate(width@, height@, sleep@, ratio@) matches Err(es) && e@
            == es,
{
    let width = match parse_usize(width) {
        Some(w) => {
            if w < 1 {
                return Err(error_bad_option_to_small("width", 1));
            }
            w
        },
        None => {
            return Err(error_bad_option_not_number("width"));
        },
    };
    let height = match parse_usize(height) {
        Some(h) => {
            if h < 1 {
                return Err(error_bad_option_to_small("height", 1));
            }
            h
        },
        None => {
            return Err(error_bad_option_not_number("height"));
        },
    };
    let sleep = match parse_u64(sleep) {
        Some(s) => {
            if s < 1 {
                return Err(error_bad_option_to_small("sleep", 1));
            }
            s
        },
        None => {
            return Err(error_bad_option_not_number("sleep"));
        },
    };
    let ratio = match parse_u32(ratio) {
        Some(r) => {
            if r < 1 {
                return Err(error_bad_option_to_small("ratio", 1));
            }
            r
        },
        None => {
            return Err(error_bad_option_not_number("ratio"));
        },
    };
    Ok(Config::new(width, height, sleep, ratio))
}

impl Config {
    /// Assemble a configuration from already validated values.
    pub fn new(width: usize, height: usize, sleep: u64, ratio: u32) -> (r: Config)
        ensures
            r == (Config { width, height, sleep, ratio }),
    {
        Config { width, height, sleep, ratio }
    }

    /// Get the width of the space the population have.
    pub fn get_width(&self) -> (r: usize)
        ensures
            r == self.width,
    {
        self.width
    }

    /// Get the height of the space the population have.
    pub fn get_height(&self) -> (r: usize)
        ensures
            r == self.height,
    {
        self.height
    }

    /// Seconds to sleep between the population's iterations.
    pub fn get_sleep(&self) -> (r: u64)
        ensures
            r == self.sleep,
    {
        self.sleep
    }

    /// The probability ratio for generating the initial population.
    pub fn get_ratio(&self) -> (r: u32)
        ensures
            r == self.ratio,
    {
        self.ratio
    }

    /// Render this configuration as its fixed-format line.
    pub fn to_display_string(&self) -> (r: String)
        ensures
            r@ == spec_config_line(*self),
    {
        let mut r = String::from_str("Width:     ");
        r.append(pad_left(dec_string(self.width as u64), 5).as_str());
        r.append(", Height: ");
        r.append(pad_left(dec_string(self.height as u64), 5).as_str());
        r.append(", Sleep: ");
        r.append(pad_left(dec_string(self.sleep), 5).as_str());
        r.append(", Ratio: ");
        r.append(pad_left(dec_string(self.ratio as u64), 5).as_str());
        proof {
            assert(r@ =~= spec_config_line(*self));
        }
        r
    }
}

} // verus!
