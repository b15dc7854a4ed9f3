//! Decimal digit strings for integers: the specification of the usual
//! base-ten rendering, and executable conversions that meet it.

use vstd::prelude::*;

verus! {

use vstd::string::StringExecFns;

/// The character for one decimal digit value.
pub open spec fn digit_char(d: nat) -> char {
    if d == 0 {
        '0'
    } else if d == 1 {
        '1'
    } else if d == 2 {
        '2'
    } else if d == 3 {
        '3'
    } else if d == 4 {
        '4'
    } else if d == 5 {
        '5'
    } else if d == 6 {
        '6'
    } else if d == 7 {
        '7'
    } else if d == 8 {
        '8'
    } else {
        '9'
    }
}

/// Base-ten digits of `n`, most significant first, with no leading zeros;
/// empty for zero.
pub open spec fn dec_digits(n: nat) -> Seq<char>
    decreases n,
{
    if n == 0 {
        Seq::empty()
    } else {
        dec_digits(n / 10).push(digit_char(n % 10))
    }
}

/// The usual rendering of an unsigned integer: its digits, or "0" for zero.
pub open spec fn nat_str(n: nat) -> Seq<char> {
    if n == 0 {
        seq!['0']
    } else {
        dec_digits(n)
    }
}

/// The usual rendering of a signed integer: a leading '-' for negatives.
pub open spec fn int_str(n: int) -> Seq<char> {
    if n < 0 {
        seq!['-'] + nat_str((-n) as nat)
    } else {
        nat_str(n as nat)
    }
}

/// Relies on u64's `Display` implementation: it prints the base-ten digits
/// of the value with no leading zeros, sign or separators, and "0" for zero.
#[verifier::external_body]
pub fn u64_to_string(n: u64) -> (r: String)
    ensures
        r@ == nat_str(n as nat),
{
    n.to_string()
}

/// Renders a signed 64-bit integer in base ten with a leading '-' when
/// negative.
pub fn i64_to_string(n: i64) -> (r: String)
    ensures
        r@ == int_str(n as int),
{
    if n < 0 {
        let mag: u64 = (-(n as i128)) as u64;
        let digits = u64_to_string(mag);
        let mut r = String::new();
        r.append("-");
        proof {
            reveal_strlit("-");
            assert(seq!['-'] =~= "-"@);
        }
        r.append(digits.as_str());
        r
    } else {
        u64_to_string(n as u64)
    }
}

} // verus!
