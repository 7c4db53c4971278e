//! `hh:mm:ss` rendering of a number of seconds: hours and minutes and seconds
//! fields, each zero-padded to two digits, hours growing wider when they need
//! more.

use vstd::prelude::*;
use vstd::string::StringExecFns;

verus! {

/// The character for one decimal digit.
pub open spec fn digit_char(d: int) -> char {
    if d == 0 {
        '0'
    } else if d == 1 {
        '1'
    } else if d == 2 {
        '2'
    } else if d == 3 {
        '3'
    } else if d == 4 {
        '4'
    } else if d == 5 {
        '5'
    } else if d == 6 {
        '6'
    } else if d == 7 {
        '7'
    } else if d == 8 {
        '8'
    } else {
        '9'
    }
}

/// Decimal digits of `n`, most significant first, with no leading zeros
/// (a single `'0'` for zero).
pub open spec fn dec_rep(n: nat) -> Seq<char>
    decreases n,
{
    if n < 10 {
        seq![digit_char(n as int)]
    } else {
        dec_rep(n / 10).push(digit_char((n % 10) as int))
    }
}

/// Decimal digits of `n`, padded on the left to at least two digits.
pub open spec fn pad2(n: nat) -> Seq<char> {
    if n < 10 {
        seq!['0'].add(dec_rep(n))
    } else {
        dec_rep(n)
    }
}

/// The `hh:mm:ss` display of `total` seconds.
pub open spec fn duration_display(total: nat) -> Seq<char> {
    pad2(total / 3600) + seq![':'] + pad2((total % 3600) / 60) + seq![':'] + pad2(total % 60)
}

fn digit_str(d: u64) -> (r: &'static str)
    requires
        d < 10,
    ensures
        r@ == seq![digit_char(d as int)],
{
    if d == 0 {
        proof {
            reveal_strlit("0");
        }
        assert("0"@ =~= seq![digit_char(0)]);
        "0"
    } else if d == 1 {
        proof {
            reveal_strlit("1");
        }
        assert("1"@ =~= seq![digit_char(1)]);
        "1"
    } else if d == 2 {
        proof {
            reveal_strlit("2");
        }
        assert("2"@ =~= seq![digit_char(2)]);
        "2"
    } else if d == 3 {
        proof {
            reveal_strlit("3");
        }
        assert("3"@ =~= seq![digit_char(3)]);
        "3"
    } else if d == 4 {
        proof {
            reveal_strlit("4");
        }
        assert("4"@ =~= seq![digit_char(4)]);
        "4"
    } else if d == 5 {
        proof {
            reveal_strlit("5");
        }
        assert("5"@ =~= seq![digit_char(5)]);
        "5"
    } else if d == 6 {
        proof {
            reveal_strlit("6");
        }
        assert("6"@ =~= seq![digit_char(6)]);
        "6"
    } else if d == 7 {
        proof {
            reveal_strlit("7");
        }
        assert("7"@ =~= seq![digit_char(7)]);
        "7"
    } else if d == 8 {
        proof {
            reveal_strlit("8");
        }
        assert("8"@ =~= seq![digit_char(8)]);
        "8"
    } else {
        proof {
            reveal_strlit("9");
        }
        assert("9"@ =~= seq![digit_char(9)]);
        "9"
    }
}

fn push_dec(s: &mut String, n: u64)
    ensures
        final(s)@ == old(s)@ + dec_rep(n as nat),
    decreases n,
{
    if n < 10 {
        s.append(digit_str(n));
    } else {
        push_dec(s, n / 10);
        s.append(digit_str(n % 10));
        assert(dec_rep(n as nat) =~= dec_rep((n as nat) / 10) + seq![
            digit_char(((n as nat) % 10) as int),
        ]);
    }
}

fn push_pad2(s: &mut String, n: u64)
    ensures
        final(s)@ == old(s)@ + pad2(n as nat),
{
    if n < 10 {
        proof {
            reveal_strlit("0");
        }
        assert("0"@ =~= seq!['0']);
        s.append("0");
    }
    push_dec(s, n);
    proof {
        if n < 10 {
            assert(pad2(n as nat) =~= seq!['0'] + dec_rep(n as nat));
        }
    }
}

/// Renders `total_secs` seconds as `hh:mm:ss`.
pub fn format_duration(total_secs: u64) -> (r: String)
    ensures
        r@ == duration_display(total_secs as nat),
{
    let hours = total_secs / 3600;
    let rem = total_secs % 3600;
    let mins = rem / 60;
    let secs = rem % 60;
    let mut s = String::new();
    push_pad2(&mut s, hours);
    proof {
        reveal_strlit(":");
    }
    assert(":"@ =~= seq![':']);
    s.append(":");
    push_pad2(&mut s, mins);
    s.append(":");
    push_pad2(&mut s, secs);
    proof {
        assert((total_secs as nat) % 3600 % 60 == (total_secs as nat) % 60) by (nonlinear_arith);
        assert(s@ =~= duration_display(total_secs as nat));
    }
    s
}

} // verus!
