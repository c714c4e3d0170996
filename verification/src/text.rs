use vstd::prelude::*;

verus! {

use vstd::string::StringExecFns;

/// The character for one decimal digit.
pub open spec fn digit_char(d: nat) -> char {
    if d == 0 {
        '0'
    } else if d == 1 {
        '1'
    } else if d == 2 {
        '2'
    } else if d == 3 {
        '3'
    } else if d == 4 {
        '4'
    } else if d == 5 {
        '5'
    } else if d == 6 {
        '6'
    } else if d == 7 {
        '7'
    } else if d == 8 {
        '8'
    } else {
        '9'
    }
}

/// The decimal digits of `n`, most significant first, no leading zeros
/// except for `n == 0` itself.
pub open spec fn dec_digits(n: nat) -> Seq<char>
    decreases n,
{
    if n < 10 {
        seq![digit_char(n)]
    } else {
        dec_digits(n / 10) + seq![digit_char(n % 10)]
    }
}

/// The decimal text of a signed 64-bit value: a minus sign and the digits of
/// the magnitude, or just the digits.
pub open spec fn i64_text(x: i64) -> Seq<char> {
    if x < 0 {
        seq!['-'] + dec_digits((-x) as nat)
    } else {
        dec_digits(x as nat)
    }
}

fn digit_str(d: u64) -> (r: &'static str)
    requires
        d < 10,
    ensures
        r@ == seq![digit_char(d as nat)],
{
    proof {
        reveal_strlit("0");
        reveal_strlit("1");
        reveal_strlit("2");
        reveal_strlit("3");
        reveal_strlit("4");
        reveal_strlit("5");
        reveal_strlit("6");
        reveal_strlit("7");
        reveal_strlit("8");
        reveal_strlit("9");
    }
    let r: &'static str = if d == 0 {
        "0"
    } else if d == 1 {
        "1"
    } else if d == 2 {
        "2"
    } else if d == 3 {
        "3"
    } else if d == 4 {
        "4"
    } else if d == 5 {
        "5"
    } else if d == 6 {
        "6"
    } else if d == 7 {
        "7"
    } else if d == 8 {
        "8"
    } else {
        "9"
    };
    proof {
        assert(r@ =~= seq![digit_char(d as nat)]);
    }
    r
}

/// Append the decimal digits of `x`, most significant first.
pub fn push_u64_decimal(out: &mut String, x: u64)
    ensures
        final(out)@ == old(out)@ + dec_digits(x as nat),
    decreases x,
{
    if x >= 10 {
        proof {
            assert(x / 10 < x) by (nonlinear_arith)
                requires
                    x >= 10,
            ;
        }
        push_u64_decimal(out, x / 10);
        out.append(digit_str(x % 10));
        proof {
            assert(out@ =~= old(out)@ + dec_digits(x as nat));
        }
    } else {
        out.append(digit_str(x));
        proof {
            assert(out@ =~= old(out)@ + dec_digits(x as nat));
        }
    }
}

/// Append the decimal text of a signed 64-bit value.
pub fn push_i64_decimal(out: &mut String, x: i64)
    ensures
        final(out)@ == old(out)@ + i64_text(x),
{
    if x < 0 {
        proof {
            reveal_strlit("-");
        }
        out.append("-");
        let wide: i128 = x as i128;
        let mag: u64 = (-wide) as u64;
        proof {
            assert(mag as nat == (-x) as nat);
        }
        push_u64_decimal(out, mag);
        proof {
            assert(out@ =~= old(out)@ + i64_text(x));
        }
    } else {
        push_u64_decimal(out, x as u64);
    }
}

} // verus!
