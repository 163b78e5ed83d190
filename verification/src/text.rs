//! Decimal rendering of integers as character sequences, shared by the
//! calendar renderer and the outbound query builder.

use vstd::prelude::*;
use vstd::string::StringExecFns;
use vstd::string::StrSliceExecFns;

verus! {

/// The decimal digit character for `d`, meaningful for `d < 10`.
pub open spec fn dec_digit(d: nat) -> char {
    if d == 0 {
        '0'
    } else if d == 1 {
        '1'
    } else if d == 2 {
        '2'
    } else if d == 3 {
        '3'
    } else if d == 4 {
        '4'
    } else if d == 5 {
        '5'
    } else if d == 6 {
        '6'
    } else if d == 7 {
        '7'
    } else if d == 8 {
        '8'
    } else {
        '9'
    }
}

/// The decimal rendering of `n`: most significant digit first, no sign, and a
/// leading zero only for `n == 0` itself.
pub open spec fn spec_dec_nat(n: nat) -> Seq<char>
    decreases n,
{
    if n < 10 {
        seq![dec_digit(n)]
    } else {
        spec_dec_nat(n / 10) + seq![dec_digit(n % 10)]
    }
}

/// The decimal rendering of a signed value: a minus sign ahead of the digits
/// of the magnitude for a negative one.
pub open spec fn spec_dec_int(v: int) -> Seq<char> {
    if v >= 0 {
        spec_dec_nat(v as nat)
    } else {
        seq!['-'] + spec_dec_nat((-v) as nat)
    }
}

/// `n` rendered as exactly two decimal digits, meaningful for `n < 100`.
pub open spec fn spec_two_digits(n: nat) -> Seq<char> {
    seq![dec_digit(n / 10), dec_digit(n % 10)]
}

/// `n` rendered as exactly four decimal digits, meaningful for `n < 10000`.
pub open spec fn spec_four_digits(n: nat) -> Seq<char> {
    spec_two_digits(n / 100) + spec_two_digits(n % 100)
}

/// The one-character string for the decimal digit `d`.
pub fn digit_str(d: u64) -> (r: &'static str)
    requires
        d < 10,
    ensures
        r@ =~= seq![dec_digit(d as nat)],
{
    proof {
        reveal_strlit("0");
        reveal_strlit("1");
        reveal_strlit("2");
        reveal_strlit("3");
        reveal_strlit("4");
        reveal_strlit("5");
        reveal_strlit("6");
        reveal_strlit("7");
        reveal_strlit("8");
        reveal_strlit("9");
    }
    if d == 0 {
        "0"
    } else if d == 1 {
        "1"
    } else if d == 2 {
        "2"
    } else if d == 3 {
        "3"
    } else if d == 4 {
        "4"
    } else if d == 5 {
        "5"
    } else if d == 6 {
        "6"
    } else if d == 7 {
        "7"
    } else if d == 8 {
        "8"
    } else {
        "9"
    }
}

/// The decimal string of an unsigned value.
pub fn dec_u64_string(n: u64) -> (r: String)
    ensures
        r@ == spec_dec_nat(n as nat),
    decreases n,
{
    if n < 10 {
        digit_str(n).to_owned()
    } else {
        let prefix = dec_u64_string(n / 10);
        prefix.concat(digit_str(n % 10))
    }
}

/// The decimal string of a signed value.
pub fn dec_i64_string(v: i64) -> (r: String)
    ensures
        r@ == spec_dec_int(v as int),
{
    if v >= 0 {
        dec_u64_string(v as u64)
    } else {
        let magnitude: i128 = -(v as i128);
        assert(0 < magnitude <= 0x8000_0000_0000_0000i128);
        let sign = "-".to_owned();
        proof {
            reveal_strlit("-");
        }
        sign.concat(dec_u64_string(magnitude as u64).as_str())
    }
}

/// `n` as exactly two decimal digits.
pub fn two_digit_string(n: u64) -> (r: String)
    requires
        n < 100,
    ensures
        r@ == spec_two_digits(n as nat),
{
    let r = digit_str(n / 10).to_owned().concat(digit_str(n % 10));
    assert(r@ =~= spec_two_digits(n as nat));
    r
}

/// `n` as exactly four decimal digits.
pub fn four_digit_string(n: u64) -> (r: String)
    requires
        n < 10000,
    ensures
        r@ == spec_four_digits(n as nat),
{
    let r = two_digit_string(n / 100).concat(two_digit_string(n % 100).as_str());
    assert(r@ =~= spec_four_digits(n as nat));
    r
}

} // verus!
