//! Column names and paths: decimal numerals, name templates and the test for
//! a parquet path.

use vstd::prelude::*;
use vstd::string::*;

verus! {

/// The character of one decimal digit.
pub open spec fn digit(d: int) -> char {
    if d == 0 {
        '0'
    } else if d == 1 {
        '1'
    } else if d == 2 {
        '2'
    } else if d == 3 {
        '3'
    } else if d == 4 {
        '4'
    } else if d == 5 {
        '5'
    } else if d == 6 {
        '6'
    } else if d == 7 {
        '7'
    } else if d == 8 {
        '8'
    } else {
        '9'
    }
}

/// The decimal numeral of `n`, without sign or leading zeros.
pub open spec fn decimal(n: nat) -> Seq<char>
    decreases n,
{
    if n < 10 {
        seq![digit(n as int)]
    } else {
        decimal(n / 10).push(digit((n % 10) as int))
    }
}

/// The suffix that marks a path as a parquet file.
pub open spec fn parquet_suffix() -> Seq<char> {
    seq!['.', 'p', 'a', 'r', 'q', 'u', 'e', 't']
}

/// The text ends in `.parquet`.
pub open spec fn parquet_path(s: Seq<char>) -> bool {
    s.len() >= 8 && s.subrange(s.len() - 8, s.len() as int) == parquet_suffix()
}

fn digit_str(d: usize) -> (s: &'static str)
    requires
        d < 10,
    ensures
        s@ == seq![digit(d as int)],
{
    proof {
        reveal_strlit("0");
        reveal_strlit("1");
        reveal_strlit("2");
        reveal_strlit("3");
        reveal_strlit("4");
        reveal_strlit("5");
        reveal_strlit("6");
        reveal_strlit("7");
        reveal_strlit("8");
        reveal_strlit("9");
    }
    let s: &'static str = if d == 0 {
        "0"
    } else if d == 1 {
        "1"
    } else if d == 2 {
        "2"
    } else if d == 3 {
        "3"
    } else if d == 4 {
        "4"
    } else if d == 5 {
        "5"
    } else if d == 6 {
        "6"
    } else if d == 7 {
        "7"
    } else if d == 8 {
        "8"
    } else {
        "9"
    };
    s
}

/// Appends the decimal numeral of `n` to `out`.
pub fn push_decimal(out: &mut String, n: usize)
    ensures
        final(out)@ == old(out)@ + decimal(n as nat),
    decreases n,
{
    if n >= 10 {
        push_decimal(out, n / 10);
    }
    out.append(digit_str(n % 10));
}

/// The name `stem` + `tag` + the decimal numeral of `n`.
pub fn tagged_name(stem: &str, tag: &str, n: usize) -> (name: String)
    ensures
        name@ == stem@ + tag@ + decimal(n as nat),
{
    let mut name: String = String::from_str(stem);
    name.append(tag);
    push_decimal(&mut name, n);
    name
}

/// Whether the text ends in `.parquet`.
pub fn is_parquet_path(s: &str) -> (r: bool)
    ensures
        r == parquet_path(s@),
{
    let n: usize = s.unicode_len();
    if n < 8 {
        return false;
    }
    let tail: String = String::from_str(s.substring_char(n - 8, n));
    let suffix: String = String::from_str(".parquet");
    proof {
        reveal_strlit(".parquet");
        assert(suffix@ =~= parquet_suffix());
    }
    tail == suffix
}

} // verus!
