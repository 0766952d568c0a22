//! Decimal rendering of the numeric type keys of the public feed.
//!
//! The vocabulary keys are strings, while each building lists its school
//! types as numbers; a building's number matches a vocabulary entry exactly
//! when the entry's key reads as that number's decimal digits.

use vstd::prelude::*;

verus! {

/// The digit character for one decimal digit value.
pub open spec fn spec_digit_char(d: nat) -> char {
    if d == 0 {
        '0'
    } else if d == 1 {
        '1'
    } else if d == 2 {
        '2'
    } else if d == 3 {
        '3'
    } else if d == 4 {
        '4'
    } else if d == 5 {
        '5'
    } else if d == 6 {
        '6'
    } else if d == 7 {
        '7'
    } else if d == 8 {
        '8'
    } else {
        '9'
    }
}

/// The decimal digit string of a number, most significant digit first and
/// without leading zeros (a lone zero for the number zero).
pub open spec fn spec_decimal(n: nat) -> Seq<char>
    decreases n,
{
    if n < 10 {
        seq![spec_digit_char(n)]
    } else {
        spec_decimal(n / 10).push(spec_digit_char(n % 10))
    }
}

fn digit_char(d: u32) -> (c: char)
    requires
        d < 10,
    ensures
        c == spec_digit_char(d as nat),
{
    if d == 0 {
        '0'
    } else if d == 1 {
        '1'
    } else if d == 2 {
        '2'
    } else if d == 3 {
        '3'
    } else if d == 4 {
        '4'
    } else if d == 5 {
        '5'
    } else if d == 6 {
        '6'
    } else if d == 7 {
        '7'
    } else if d == 8 {
        '8'
    } else {
        '9'
    }
}

/// The decimal digits of `n`, most significant first.
pub fn decimal_digits(n: u32) -> (r: Vec<char>)
    ensures
        r@ == spec_decimal(n as nat),
{
    let mut m: u32 = n;
    let mut r: Vec<char> = Vec::new();
    loop
        invariant
            m > 0 ==> spec_decimal(n as nat) == spec_decimal(m as nat) + r@,
            m == 0 ==> n == 0 && r@.len() == 0,
        decreases m,
    {
        let ghost r0 = r@;
        let prev = m;
        let d = digit_char(m % 10);
        r.insert(0, d);
        proof {
            assert(r@ =~= seq![d] + r0);
        }
        m = m / 10;
        if m == 0 {
            proof {
                if prev == 0 {
                    assert(r@ =~= spec_decimal(n as nat));
                } else {
                    assert(spec_decimal(prev as nat) == seq![
                        spec_digit_char((prev % 10) as nat),
                    ]);
                    assert(r@ =~= spec_decimal(n as nat));
                }
            }
            return r;
        }
        proof {
            assert(spec_decimal(prev as nat) == spec_decimal(m as nat).push(
                spec_digit_char((prev % 10) as nat),
            ));
            assert(spec_decimal(n as nat) =~= spec_decimal(m as nat) + r@);
        }
    }
}

/// Whether the string reads as the decimal digits of `n`.
pub fn str_equals_decimal(s: &str, n: u32) -> (r: bool)
    ensures
        r == (s@ == spec_decimal(n as nat)),
{
    let digits = decimal_digits(n);
    let len = s.unicode_len();
    if len != digits.len() {
        return false;
    }
    let mut i: usize = 0;
    while i < len
        invariant
            len == s@.len() && len == digits@.len(),
            digits@ == spec_decimal(n as nat),
            i <= len,
            forall|k: int| 0 <= k < i ==> s@[k] == digits@[k],
        decreases len - i,
    {
        if s.get_char(i) != digits[i] {
            return false;
        }
        i = i + 1;
    }
    proof {
        assert(s@ =~= spec_decimal(n as nat));
    }
    true
}

} // verus!
