//! Decimal rendering of small unsigned numbers, used by the label
//! methods that present tag and status numbers to humans.

use vstd::prelude::*;
use vstd::string::StringExecFns;

verus! {

/// The decimal digit character for `d`.
pub open spec fn digit_char(d: nat) -> char {
    if d == 0 {
        '0'
    } else if d == 1 {
        '1'
    } else if d == 2 {
        '2'
    } else if d == 3 {
        '3'
    } else if d == 4 {
        '4'
    } else if d == 5 {
        '5'
    } else if d == 6 {
        '6'
    } else if d == 7 {
        '7'
    } else if d == 8 {
        '8'
    } else {
        '9'
    }
}

/// The decimal digit string of `n`, most significant digit first,
/// without leading zeroes (a single zero for 0).
pub open spec fn spec_decimal(n: nat) -> Seq<char>
    decreases n,
{
    if n < 10 {
        seq![digit_char(n)]
    } else {
        spec_decimal(n / 10) + seq![digit_char(n % 10)]
    }
}

/// Appends the decimal digits of `n` to `s`; mirrors
/// [`spec_decimal`].
pub(crate) fn push_decimal(s: &mut String, n: u32)
    ensures
        final(s)@ == old(s)@ + spec_decimal(n as nat),
    decreases n,
{
    let ghost mid = s@;
    if n >= 10 {
        push_decimal(s, n / 10);
        proof {
            assert(s@ == mid + spec_decimal((n / 10) as nat));
        }
    }
    let d = n % 10;
    let c: &str = if d == 0 {
        "0"
    } else if d == 1 {
        "1"
    } else if d == 2 {
        "2"
    } else if d == 3 {
        "3"
    } else if d == 4 {
        "4"
    } else if d == 5 {
        "5"
    } else if d == 6 {
        "6"
    } else if d == 7 {
        "7"
    } else if d == 8 {
        "8"
    } else {
        "9"
    };
    proof {
        reveal_strlit("0");
        reveal_strlit("1");
        reveal_strlit("2");
        reveal_strlit("3");
        reveal_strlit("4");
        reveal_strlit("5");
        reveal_strlit("6");
        reveal_strlit("7");
        reveal_strlit("8");
        reveal_strlit("9");
        assert(c@ =~= seq![digit_char((n % 10) as nat)]);
    }
    s.append(c);
    proof {
        if n >= 10 {
            assert((mid + spec_decimal((n / 10) as nat)) + seq![digit_char((n % 10) as nat)] =~= mid
                + spec_decimal(n as nat));
        } else {
            assert(mid + seq![digit_char(n as nat)] =~= mid + spec_decimal(n as nat));
        }
    }
}

/// A label of the form `name(n)`, for the numbers a type gives no
/// name to.
pub(crate) fn numbered_label(name: &str, n: u32) -> (r: String)
    ensures
        r@ == name@ + spec_decimal(n as nat) + ")"@,
{
    let mut s = String::from_str(name);
    push_decimal(&mut s, n);
    s.append(")");
    proof {
        assert((name@ + spec_decimal(n as nat)) + ")"@ =~= name@ + spec_decimal(n as nat) + ")"@);
    }
    s
}

} // verus!
