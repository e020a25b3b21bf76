//! Decimal formatting of indexed identifiers.
//!
//! A stock array derives the ids of its member stocks as `base[index]` and
//! their display names as `base [index]`; the spec functions here pin both
//! shapes down to the character.

use vstd::prelude::*;

verus! {

/// The decimal digit character for `d`, for `0 <= d <= 9`.
pub open spec fn digit_char(d: int) -> char {
    if d == 0 {
        '0'
    } else if d == 1 {
        '1'
    } else if d == 2 {
        '2'
    } else if d == 3 {
        '3'
    } else if d == 4 {
        '4'
    } else if d == 5 {
        '5'
    } else if d == 6 {
        '6'
    } else if d == 7 {
        '7'
    } else if d == 8 {
        '8'
    } else {
        '9'
    }
}

/// The decimal representation of `n`, most significant digit first,
/// without leading zeros (except for `n == 0` itself).
pub open spec fn dec_rep(n: nat) -> Seq<char>
    decreases n,
{
    if n < 10 {
        seq![digit_char(n as int)]
    } else {
        dec_rep(n / 10).push(digit_char((n % 10) as int))
    }
}

/// The id of member `i` of a stock array with base id `base`.
pub open spec fn indexed_id(base: Seq<char>, i: nat) -> Seq<char> {
    base + seq!['['] + dec_rep(i) + seq![']']
}

/// The display name of member `i` of a stock array named `base`.
pub open spec fn indexed_name(base: Seq<char>, i: nat) -> Seq<char> {
    base + seq![' ', '['] + dec_rep(i) + seq![']']
}

/// Append the decimal representation of `n` to `s`.
pub(crate) fn push_decimal(s: &mut String, n: usize)
    ensures
        final(s)@ == old(s)@ + dec_rep(n as nat),
    decreases n,
{
    if n >= 10 {
        push_decimal(s, n / 10);
    }
    let d: usize = n % 10;
    let ghost pre = s@;
    if d == 0 {
        s.append("0");
        proof {
            reveal_strlit("0");
        }
    } else if d == 1 {
        s.append("1");
        proof {
            reveal_strlit("1");
        }
    } else if d == 2 {
        s.append("2");
        proof {
            reveal_strlit("2");
        }
    } else if d == 3 {
        s.append("3");
        proof {
            reveal_strlit("3");
        }
    } else if d == 4 {
        s.append("4");
        proof {
            reveal_strlit("4");
        }
    } else if d == 5 {
        s.append("5");
        proof {
            reveal_strlit("5");
        }
    } else if d == 6 {
        s.append("6");
        proof {
            reveal_strlit("6");
        }
    } else if d == 7 {
        s.append("7");
        proof {
            reveal_strlit("7");
        }
    } else if d == 8 {
        s.append("8");
        proof {
            reveal_strlit("8");
        }
    } else {
        s.append("9");
        proof {
            reveal_strlit("9");
        }
    }
    proof {
        assert(s@ =~= pre.push(digit_char(d as int)));
        if n >= 10 {
            assert(s@ =~= old(s)@ + dec_rep(n as nat));
        } else {
            assert(s@ =~= old(s)@ + dec_rep(n as nat));
        }
    }
}

/// The id `base[i]`.
pub(crate) fn format_indexed_id(base: &str, i: usize) -> (r: String)
    ensures
        r@ == indexed_id(base@, i as nat),
{
    let mut s = base.to_owned();
    s.append("[");
    push_decimal(&mut s, i);
    s.append("]");
    proof {
        reveal_strlit("[");
        reveal_strlit("]");
        assert(s@ =~= indexed_id(base@, i as nat));
    }
    s
}

/// The display name `base [i]`.
pub(crate) fn format_indexed_name(base: &str, i: usize) -> (r: String)
    ensures
        r@ == indexed_name(base@, i as nat),
{
    let mut s = base.to_owned();
    s.append(" [");
    push_decimal(&mut s, i);
    s.append("]");
    proof {
        reveal_strlit(" [");
        reveal_strlit("]");
        assert(s@ =~= indexed_name(base@, i as nat));
    }
    s
}

} // verus!
