//! Verified rendering of integers as decimal text, for assembling the
//! encoder's textual arguments.

use vstd::prelude::*;

verus! {

/// The character for one decimal digit.
pub open spec fn spec_digit(d: nat) -> char {
    if d == 0 {
        '0'
    } else if d == 1 {
        '1'
    } else if d == 2 {
        '2'
    } else if d == 3 {
        '3'
    } else if d == 4 {
        '4'
    } else if d == 5 {
        '5'
    } else if d == 6 {
        '6'
    } else if d == 7 {
        '7'
    } else if d == 8 {
        '8'
    } else {
        '9'
    }
}

/// The decimal digits of `n`, most significant first, with no leading zeros
/// (zero itself is the single digit `0`).
pub open spec fn spec_udec(n: nat) -> Seq<char>
    decreases n,
{
    if n < 10 {
        seq![spec_digit(n)]
    } else {
        spec_udec(n / 10).push(spec_digit(n % 10))
    }
}

/// The decimal text of a signed value: a minus sign before the digits of the
/// magnitude when negative, the bare digits otherwise.
pub open spec fn spec_idec(n: int) -> Seq<char> {
    if n < 0 {
        seq!['-'] + spec_udec((-n) as nat)
    } else {
        spec_udec(n as nat)
    }
}

/// Whether a character is a decimal digit.
pub open spec fn spec_is_digit(ch: char) -> bool {
    ch == '0' || ch == '1' || ch == '2' || ch == '3' || ch == '4' || ch == '5' || ch == '6' || ch
        == '7' || ch == '8' || ch == '9'
}

/// A decimal rendering is never empty and always begins with a digit.
pub proof fn lemma_udec_starts_with_digit(n: nat)
    ensures
        spec_udec(n).len() >= 1,
        spec_is_digit(spec_udec(n)[0]),
    decreases n,
{
    if n >= 10 {
        lemma_udec_starts_with_digit(n / 10);
    }
}

/// The one-character string for a decimal digit.
fn digit_str(d: u64) -> (r: &'static str)
    requires
        d < 10,
    ensures
        r@ =~= seq![spec_digit(d as nat)],
{
    proof {
        reveal_strlit("0");
        reveal_strlit("1");
        reveal_strlit("2");
        reveal_strlit("3");
        reveal_strlit("4");
        reveal_strlit("5");
        reveal_strlit("6");
        reveal_strlit("7");
        reveal_strlit("8");
        reveal_strlit("9");
    }
    match d {
        0 => "0",
        1 => "1",
        2 => "2",
        3 => "3",
        4 => "4",
        5 => "5",
        6 => "6",
        7 => "7",
        8 => "8",
        _ => "9",
    }
}

/// Renders an unsigned value as decimal text.
pub fn u64_to_string(n: u64) -> (r: String)
    ensures
        r@ == spec_udec(n as nat),
    decreases n,
{
    if n < 10 {
        digit_str(n).to_owned()
    } else {
        let mut s = u64_to_string(n / 10);
        s.append(digit_str(n % 10));
        proof {
            assert(s@ =~= spec_udec((n / 10) as nat).push(spec_digit((n % 10) as nat)));
        }
        s
    }
}

/// Renders a signed value as decimal text, minus sign included.
pub fn i64_to_string(n: i64) -> (r: String)
    ensures
        r@ == spec_idec(n as int),
{
    if n < 0 {
        let magnitude: u64 = ((-(n + 1)) as u64) + 1;
        assert(magnitude == -(n as int));
        let mut s = "-".to_owned();
        s.append(u64_to_string(magnitude).as_str());
        proof {
            reveal_strlit("-");
            assert(s@ =~= spec_idec(n as int));
        }
        s
    } else {
        u64_to_string(n as u64)
    }
}

} // verus!
