//! Exact decimal rendering of the numbers that appear in the output grammar.
//!
//! World coordinates are kept as scaled integers: `x` and `y` in half-pixel
//! units, `z` in units of one hundred-thousandth. Rendering them is therefore
//! exact fixed-point decimal formatting, specified character by character.

use vstd::prelude::*;
use vstd::string::StringExecFns;

verus! {

/// The decimal digit character for `d`; meaningful for `0 <= d < 10`.
pub open spec fn spec_digit(d: int) -> Seq<char> {
    if d == 0 {
        "0"@
    } else if d == 1 {
        "1"@
    } else if d == 2 {
        "2"@
    } else if d == 3 {
        "3"@
    } else if d == 4 {
        "4"@
    } else if d == 5 {
        "5"@
    } else if d == 6 {
        "6"@
    } else if d == 7 {
        "7"@
    } else if d == 8 {
        "8"@
    } else {
        "9"@
    }
}

/// Decimal numeral of a non-negative integer, most significant digit first,
/// no sign and no leading zeros (except for `0` itself).
pub open spec fn spec_udec(n: int) -> Seq<char>
    decreases n,
{
    if n < 10 {
        spec_digit(n)
    } else {
        spec_udec(n / 10) + spec_digit(n % 10)
    }
}

/// Decimal numeral of an integer, with a leading minus sign when negative.
pub open spec fn spec_dec(v: int) -> Seq<char> {
    if v < 0 {
        "-"@ + spec_udec(-v)
    } else {
        spec_udec(v)
    }
}

/// Rendering of the non-negative half-integer `m / 2`: the integer part,
/// then `.5` exactly when `m` is odd.
pub open spec fn spec_half_mag(m: int) -> Seq<char> {
    if m % 2 == 0 {
        spec_udec(m / 2)
    } else {
        spec_udec(m / 2) + ".5"@
    }
}

/// Rendering of the half-integer `v / 2`, with a leading minus sign when
/// `v` is negative.
pub open spec fn spec_half(v: int) -> Seq<char> {
    if v >= 0 {
        spec_half_mag(v)
    } else {
        "-"@ + spec_half_mag(-v)
    }
}

/// `10^d` for `d >= 0`.
pub open spec fn pow10(d: int) -> int
    decreases d,
{
    if d <= 0 {
        1
    } else {
        10 * pow10(d - 1)
    }
}

/// The `d` decimal digits of `r`, zero-padded on the left to width `d`;
/// meaningful for `0 <= r < 10^d` and `d >= 1`.
pub open spec fn spec_pad(r: int, d: int) -> Seq<char>
    decreases d,
{
    if d <= 1 {
        spec_digit(r)
    } else {
        spec_pad(r / 10, d - 1) + spec_digit(r % 10)
    }
}

/// The `d`-digit zero-padded numeral of `r` with trailing zeros removed;
/// meaningful for `1 <= r < 10^d`.
pub open spec fn spec_trimmed(r: int, d: int) -> Seq<char>
    decreases d,
{
    if d <= 1 {
        spec_digit(r)
    } else if r % 10 == 0 {
        spec_trimmed(r / 10, d - 1)
    } else {
        spec_pad(r, d)
    }
}

/// Rendering of the non-negative fixed-point value `m / 100000`: the integer
/// part, then a point and the fractional digits with trailing zeros removed,
/// omitted entirely when the fraction is zero.
pub open spec fn spec_fixed5_mag(m: int) -> Seq<char> {
    if m % 100000 == 0 {
        spec_udec(m / 100000)
    } else {
        spec_udec(m / 100000) + "."@ + spec_trimmed(m % 100000, 5)
    }
}

/// Rendering of the fixed-point value `v / 100000`, with a leading minus sign
/// when `v` is negative.
pub open spec fn spec_fixed5(v: int) -> Seq<char> {
    if v >= 0 {
        spec_fixed5_mag(v)
    } else {
        "-"@ + spec_fixed5_mag(-v)
    }
}

fn digit_literal(d: u64) -> (r: &'static str)
    requires
        d < 10,
    ensures
        r@ == spec_digit(d as int),
{
    if d == 0 {
        "0"
    } else if d == 1 {
        "1"
    } else if d == 2 {
        "2"
    } else if d == 3 {
        "3"
    } else if d == 4 {
        "4"
    } else if d == 5 {
        "5"
    } else if d == 6 {
        "6"
    } else if d == 7 {
        "7"
    } else if d == 8 {
        "8"
    } else {
        "9"
    }
}

/// Decimal numeral of `n`, without sign.
pub fn udec_string(n: u64) -> (r: String)
    ensures
        r@ == spec_udec(n as int),
    decreases n,
{
    if n < 10 {
        digit_literal(n).to_owned()
    } else {
        let q: u64 = n / 10;
        let rem: u64 = n % 10;
        udec_string(q).concat(digit_literal(rem))
    }
}

/// Decimal numeral of `v`, with a leading minus sign when negative.
pub fn dec_string(v: i64) -> (r: String)
    ensures
        r@ == spec_dec(v as int),
{
    if v >= 0 {
        udec_string(v as u64)
    } else {
        let m: u64 = ((-(v + 1)) as u64) + 1;
        assert(m as int == -(v as int));
        "-".to_owned().concat(udec_string(m).as_str())
    }
}

fn half_mag_string(m: u64) -> (r: String)
    ensures
        r@ == spec_half_mag(m as int),
{
    let q: u64 = m / 2;
    if m % 2 == 0 {
        udec_string(q)
    } else {
        udec_string(q).concat(".5")
    }
}

/// Rendering of the half-integer `v / 2`.
pub fn half_string(v: i64) -> (r: String)
    ensures
        r@ == spec_half(v as int),
{
    if v >= 0 {
        half_mag_string(v as u64)
    } else {
        let m: u64 = ((-(v + 1)) as u64) + 1;
        assert(m as int == -(v as int));
        "-".to_owned().concat(half_mag_string(m).as_str())
    }
}

fn pad_string(r: u64, d: u64) -> (s: String)
    requires
        1 <= d,
        r < pow10(d as int),
    ensures
        s@ == spec_pad(r as int, d as int),
    decreases d,
{
    if d == 1 {
        proof {
            assert(pow10(1) == 10) by {
                reveal_with_fuel(pow10, 2);
            }
        }
        digit_literal(r).to_owned()
    } else {
        let q: u64 = r / 10;
        let rem: u64 = r % 10;
        proof {
            assert(pow10(d as int) == 10 * pow10(d as int - 1));
            assert(pow10(d as int - 1) >= 1) by {
                lemma_pow10_pos(d as int - 1);
            }
            assert(q < pow10(d as int - 1)) by (nonlinear_arith)
                requires
                    r < 10 * pow10(d as int - 1),
                    pow10(d as int - 1) >= 1,
                    q == r as int / 10,
            ;
        }
        pad_string(q, d - 1).concat(digit_literal(rem))
    }
}

proof fn lemma_pow10_pos(d: int)
    ensures
        pow10(d) >= 1,
    decreases (if d < 0 { 0int } else { d }),
{
    if d > 0 {
        lemma_pow10_pos(d - 1);
    }
}

fn trimmed_string(r: u64, d: u64) -> (s: String)
    requires
        1 <= d,
        r < pow10(d as int),
    ensures
        s@ == spec_trimmed(r as int, d as int),
    decreases d,
{
    if d == 1 {
        proof {
            assert(pow10(1) == 10) by {
                reveal_with_fuel(pow10, 2);
            }
        }
        digit_literal(r).to_owned()
    } else if r % 10 == 0 {
        let q: u64 = r / 10;
        proof {
            assert(pow10(d as int) == 10 * pow10(d as int - 1));
            assert(pow10(d as int - 1) >= 1) by {
                lemma_pow10_pos(d as int - 1);
            }
            assert(q < pow10(d as int - 1)) by (nonlinear_arith)
                requires
                    r < 10 * pow10(d as int - 1),
                    pow10(d as int - 1) >= 1,
                    q == r as int / 10,
            ;
        }
        trimmed_string(q, d - 1)
    } else {
        pad_string(r, d)
    }
}

fn fixed5_mag_string(m: u64) -> (s: String)
    ensures
        s@ == spec_fixed5_mag(m as int),
{
    let q: u64 = m / 100000;
    let r: u64 = m % 100000;
    if r == 0 {
        udec_string(q)
    } else {
        proof {
            assert(pow10(5) == 100000) by {
                reveal_with_fuel(pow10, 6);
            }
        }
        udec_string(q).concat(".").concat(trimmed_string(r, 5).as_str())
    }
}

/// Rendering of the fixed-point value `v / 100000`.
pub fn fixed5_string(v: i64) -> (s: String)
    ensures
        s@ == spec_fixed5(v as int),
{
    if v >= 0 {
        fixed5_mag_string(v as u64)
    } else {
        let m: u64 = ((-(v + 1)) as u64) + 1;
        assert(m as int == -(v as int));
        "-".to_owned().concat(fixed5_mag_string(m).as_str())
    }
}

} // verus!
