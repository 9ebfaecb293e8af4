//! Reporting: the single success line of a run.
//!
//! On success the caller prints exactly one line naming the output file
//! and the elapsed whole milliseconds.

use vstd::prelude::*;

verus! {

/// The decimal digit character for `d`.
pub open spec fn digit_char(d: nat) -> char
    recommends
        d < 10,
{
    if d == 0 {
        '0'
    } else if d == 1 {
        '1'
    } else if d == 2 {
        '2'
    } else if d == 3 {
        '3'
    } else if d == 4 {
        '4'
    } else if d == 5 {
        '5'
    } else if d == 6 {
        '6'
    } else if d == 7 {
        '7'
    } else if d == 8 {
        '8'
    } else {
        '9'
    }
}

/// The decimal rendering of `n`, most significant digit first.
pub open spec fn dec_seq(n: nat) -> Seq<char>
    decreases n,
{
    if n < 10 {
        seq![digit_char(n)]
    } else {
        dec_seq(n / 10).push(digit_char(n % 10))
    }
}

/// The one success line of a run.
pub open spec fn spec_success_message(path: Seq<char>, ms: nat) -> Seq<char> {
    "Wrote "@ + path + " in "@ + dec_seq(ms) + " ms"@
}

/// Renders `n` in decimal.
pub fn u128_to_dec(n: u128) -> (r: String)
    ensures
        r@ == dec_seq(n as nat),
    decreases n,
{
    let d = n % 10;
    let ds: &str = match d {
        0 => "0",
        1 => "1",
        2 => "2",
        3 => "3",
        4 => "4",
        5 => "5",
        6 => "6",
        7 => "7",
        8 => "8",
        _ => "9",
    };
    proof {
        reveal_strlit("0");
        reveal_strlit("1");
        reveal_strlit("2");
        reveal_strlit("3");
        reveal_strlit("4");
        reveal_strlit("5");
        reveal_strlit("6");
        reveal_strlit("7");
        reveal_strlit("8");
        reveal_strlit("9");
        assert(ds@ =~= seq![digit_char((n % 10) as nat)]);
    }
    if n < 10 {
        String::from_str(ds)
    } else {
        let prefix = u128_to_dec(n / 10);
        prefix.concat(ds)
    }
}

/// Renders the success line for the written file and the elapsed time.
pub fn success_message(path: &String, ms: u128) -> (r: String)
    ensures
        r@ == spec_success_message(path@, ms as nat),
{
    String::from_str("Wrote ").concat(path.as_str()).concat(" in ").concat(
        u128_to_dec(ms).as_str(),
    ).concat(" ms")
}

} // verus!
