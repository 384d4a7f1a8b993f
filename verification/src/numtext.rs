//! Decimal rendering of version numbers, used when blob paths are built.

use vstd::prelude::*;

use crate::hash::hex_char;
use crate::hash::hex_digit;
use crate::hash::string_push;

verus! {

/// The decimal digit string of a number, most significant digit first, with no
/// leading zeros (`0` renders as `"0"`).
pub open spec fn dec_str(n: nat) -> Seq<char>
    decreases n,
{
    if n < 10 {
        seq![hex_char(n as u8)]
    } else {
        dec_str(n / 10).push(hex_char((n % 10) as u8))
    }
}

/// Renders a version number in decimal.
pub fn u32_to_string(n: u32) -> (r: String)
    ensures
        r@ == dec_str(n as nat),
{
    let mut digits: Vec<char> = Vec::new();
    let mut m: u32 = n;
    while m >= 10
        invariant
            dec_str(n as nat) == dec_str(m as nat) + digits@.reverse(),
        decreases m,
    {
        let d = hex_digit((m % 10) as u8);
        digits.push(d);
        proof {
            assert(digits@.reverse() =~= seq![d] + digits@.drop_last().reverse());
            assert(dec_str(m as nat) == dec_str((m / 10) as nat).push(d));
            assert(dec_str((m / 10) as nat).push(d) + digits@.drop_last().reverse() =~= dec_str(
                (m / 10) as nat,
            ) + digits@.reverse());
        }
        m = m / 10;
    }
    let mut r = String::new();
    string_push(&mut r, hex_digit(m as u8));
    proof {
        assert(r@ =~= seq![hex_char(m as u8)]);
        assert(r@ =~= dec_str(m as nat));
    }
    let k = digits.len();
    let mut i: usize = k;
    while i > 0
        invariant
            i <= k,
            k == digits@.len(),
            dec_str(n as nat) == dec_str(m as nat) + digits@.reverse(),
            r@ == dec_str(m as nat) + digits@.reverse().take((k - i) as int),
        decreases i,
    {
        i = i - 1;
        string_push(&mut r, digits[i]);
        proof {
            assert(digits@.reverse()[(k - i - 1) as int] == digits@[i as int]);
            assert(r@ =~= dec_str(m as nat) + digits@.reverse().take((k - i) as int));
        }
    }
    proof {
        assert(digits@.reverse().take(k as int) =~= digits@.reverse());
    }
    r
}

} // verus!
