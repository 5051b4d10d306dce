//! Run suffix generation.
//!
//! Each pipeline run tags its shard files with a random token so that two
//! runs writing into the same directory never collide. The token's
//! characters are drawn from a fixed 34-character alphabet of digits and
//! lowercase letters.

use rand::RngExt;
use vstd::prelude::*;
use vstd::string::StringExecFns;

verus! {

/// A character of the run-suffix alphabet: the digits `'0'` up to but not
/// including `'9'`, and the letters `'a'` up to but not including `'z'`.
pub open spec fn is_token_char(c: char) -> bool {
    ('0' <= c && c < '9') || ('a' <= c && c < 'z')
}

/// Relies on rand: a uniformly random index below `n`, from the
/// thread-local generator. Nothing but the bound holds of the result.
#[verifier::external_body]
fn random_below(n: usize) -> (r: usize)
    requires
        n > 0,
    ensures
        r < n,
{
    rand::rng().random_range(0..n)
}

/// The `j`-th character of the suffix alphabet, as a one-character string.
fn token_char_str(j: usize) -> (s: &'static str)
    requires
        j < 34,
    ensures
        s@.len() == 1,
        is_token_char(s@[0]),
{
    let s: &'static str = match j {
        0 => "0",
        1 => "1",
        2 => "2",
        3 => "3",
        4 => "4",
        5 => "5",
        6 => "6",
        7 => "7",
        8 => "8",
        9 => "a",
        10 => "b",
        11 => "c",
        12 => "d",
        13 => "e",
        14 => "f",
        15 => "g",
        16 => "h",
        17 => "i",
        18 => "j",
        19 => "k",
        20 => "l",
        21 => "m",
        22 => "n",
        23 => "o",
        24 => "p",
        25 => "q",
        26 => "r",
        27 => "s",
        28 => "t",
        29 => "u",
        30 => "v",
        31 => "w",
        32 => "x",
        _ => "y",
    };
    proof {
        reveal_strlit("0");
        reveal_strlit("1");
        reveal_strlit("2");
        reveal_strlit("3");
        reveal_strlit("4");
        reveal_strlit("5");
        reveal_strlit("6");
        reveal_strlit("7");
        reveal_strlit("8");
        reveal_strlit("a");
        reveal_strlit("b");
        reveal_strlit("c");
        reveal_strlit("d");
        reveal_strlit("e");
        reveal_strlit("f");
        reveal_strlit("g");
        reveal_strlit("h");
        reveal_strlit("i");
        reveal_strlit("j");
        reveal_strlit("k");
        reveal_strlit("l");
        reveal_strlit("m");
        reveal_strlit("n");
        reveal_strlit("o");
        reveal_strlit("p");
        reveal_strlit("q");
        reveal_strlit("r");
        reveal_strlit("s");
        reveal_strlit("t");
        reveal_strlit("u");
        reveal_strlit("v");
        reveal_strlit("w");
        reveal_strlit("x");
        reveal_strlit("y");
    }
    s
}

/// A random run suffix of the given length, drawn character by character
/// from the suffix alphabet. Only the length and the alphabet are
/// guaranteed; the characters themselves are random.
pub fn random_string(len: usize) -> (r: String)
    ensures
        r@.len() == len,
        forall|i: int| 0 <= i < len ==> is_token_char(#[trigger] r@[i]),
{
    let mut r = String::new();
    let mut i: usize = 0;
    while i < len
        invariant
            i <= len,
            r@.len() == i,
            forall|k: int| 0 <= k < i ==> is_token_char(#[trigger] r@[k]),
        decreases len - i,
    {
        let j = random_below(34);
        let s = token_char_str(j);
        r.append(s);
        i = i + 1;
    }
    r
}

} // verus!
