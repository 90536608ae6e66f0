//! Decimal rendering of unsigned integers and of fixed-point quantities with
//! two decimal places, together with the spec functions that pin the output
//! down character by character.

use vstd::prelude::*;

verus! {

/// The character for a single decimal digit.
pub open spec fn spec_digit(d: nat) -> char {
    if d == 0 {
        '0'
    } else if d == 1 {
        '1'
    } else if d == 2 {
        '2'
    } else if d == 3 {
        '3'
    } else if d == 4 {
        '4'
    } else if d == 5 {
        '5'
    } else if d == 6 {
        '6'
    } else if d == 7 {
        '7'
    } else if d == 8 {
        '8'
    } else {
        '9'
    }
}

/// The usual decimal notation of `n`, most significant digit first, with no
/// leading zeros (a single `'0'` for zero itself).
pub open spec fn spec_udec(n: nat) -> Seq<char>
    decreases n,
{
    if n < 10 {
        seq![spec_digit(n)]
    } else {
        spec_udec(n / 10).push(spec_digit(n % 10))
    }
}

/// The two-decimal fixed-point notation of a quantity of `m` hundredths:
/// the whole part in decimal, a dot, then exactly two fractional digits.
pub open spec fn spec_ufixed2(m: nat) -> Seq<char> {
    spec_udec(m / 100) + seq!['.', spec_digit((m / 10) % 10), spec_digit(m % 10)]
}

/// The signed two-decimal notation of a quantity of `v` hundredths:
/// a leading minus sign when `v` is negative.
pub open spec fn spec_fixed2(v: int) -> Seq<char> {
    if v < 0 {
        seq!['-'] + spec_ufixed2((-v) as nat)
    } else {
        spec_ufixed2(v as nat)
    }
}

/// The one-character string for a decimal digit.
fn digit_str(d: u64) -> (r: &'static str)
    requires
        d < 10,
    ensures
        r@ == seq![spec_digit(d as nat)],
{
    proof {
        reveal_strlit("0");
        reveal_strlit("1");
        reveal_strlit("2");
        reveal_strlit("3");
        reveal_strlit("4");
        reveal_strlit("5");
        reveal_strlit("6");
        reveal_strlit("7");
        reveal_strlit("8");
        reveal_strlit("9");
    }
    if d == 0 {
        proof {
            assert("0"@ =~= seq![spec_digit(0nat)]);
        }
        "0"
    } else if d == 1 {
        proof {
            assert("1"@ =~= seq![spec_digit(1nat)]);
        }
        "1"
    } else if d == 2 {
        proof {
            assert("2"@ =~= seq![spec_digit(2nat)]);
        }
        "2"
    } else if d == 3 {
        proof {
            assert("3"@ =~= seq![spec_digit(3nat)]);
        }
        "3"
    } else if d == 4 {
        proof {
            assert("4"@ =~= seq![spec_digit(4nat)]);
        }
        "4"
    } else if d == 5 {
        proof {
            assert("5"@ =~= seq![spec_digit(5nat)]);
        }
        "5"
    } else if d == 6 {
        proof {
            assert("6"@ =~= seq![spec_digit(6nat)]);
        }
        "6"
    } else if d == 7 {
        proof {
            assert("7"@ =~= seq![spec_digit(7nat)]);
        }
        "7"
    } else if d == 8 {
        proof {
            assert("8"@ =~= seq![spec_digit(8nat)]);
        }
        "8"
    } else {
        proof {
            assert("9"@ =~= seq![spec_digit(9nat)]);
        }
        "9"
    }
}

/// Renders `n` in decimal.
pub fn u64_to_string(n: u64) -> (r: String)
    ensures
        r@ == spec_udec(n as nat),
    decreases n,
{
    if n < 10 {
        String::from_str(digit_str(n))
    } else {
        let mut s = u64_to_string(n / 10);
        s.append(digit_str(n % 10));
        proof {
            assert(s@ =~= spec_udec(n as nat));
        }
        s
    }
}

/// Renders `m` hundredths as a non-negative fixed-point number with exactly
/// two decimal places.
fn ufixed2_to_string(m: u64) -> (r: String)
    ensures
        r@ == spec_ufixed2(m as nat),
{
    let mut s = u64_to_string(m / 100);
    s.append(".");
    s.append(digit_str((m / 10) % 10));
    s.append(digit_str(m % 10));
    proof {
        reveal_strlit(".");
        assert(s@ =~= spec_ufixed2(m as nat));
    }
    s
}

/// Renders `v` hundredths as a fixed-point number with exactly two decimal
/// places and a leading minus sign when `v` is negative.
pub fn fixed2_to_string(v: i64) -> (r: String)
    ensures
        r@ == spec_fixed2(v as int),
{
    if v >= 0 {
        ufixed2_to_string(v as u64)
    } else {
        let mag: u64 = (-(v as i128)) as u64;
        let mut s = String::from_str("-");
        s.append(ufixed2_to_string(mag).as_str());
        proof {
            reveal_strlit("-");
            assert(s@ =~= spec_fixed2(v as int));
        }
        s
    }
}

} // verus!
