//! Decimal rendering of the counters that appear in messages: plain digits
//! for the block count, digits grouped in threes with commas (US English
//! convention) for the per-block figures.

use vstd::prelude::*;
use num_format::ToFormattedString;

verus! {

/// The character for a single decimal digit value.
pub open spec fn digit_char(d: nat) -> char {
    if d == 0 {
        '0'
    } else if d == 1 {
        '1'
    } else if d == 2 {
        '2'
    } else if d == 3 {
        '3'
    } else if d == 4 {
        '4'
    } else if d == 5 {
        '5'
    } else if d == 6 {
        '6'
    } else if d == 7 {
        '7'
    } else if d == 8 {
        '8'
    } else {
        '9'
    }
}

/// The decimal digits of `n`, most significant first, with no sign, no
/// leading zeros (except for `n == 0` itself) and no separators.
pub open spec fn dec_digits(n: nat) -> Seq<char>
    decreases n,
{
    if n < 10 {
        seq![digit_char(n)]
    } else {
        dec_digits(n / 10).push(digit_char(n % 10))
    }
}

/// A group of three digits, zero-padded on the left; `n` is below 1000.
pub open spec fn padded3(n: nat) -> Seq<char> {
    if n < 10 {
        seq!['0', '0'] + dec_digits(n)
    } else if n < 100 {
        seq!['0'] + dec_digits(n)
    } else {
        dec_digits(n)
    }
}

/// The decimal digits of `n` grouped in threes from the right, with a
/// comma between groups: 4000000 reads "4,000,000".
pub open spec fn comma_grouped(n: nat) -> Seq<char>
    decreases n,
{
    if n < 1000 {
        dec_digits(n)
    } else {
        comma_grouped(n / 1000) + seq![','] + padded3(n % 1000)
    }
}

/// The one-character text of a single decimal digit value.
fn digit_text(d: u64) -> (r: &'static str)
    requires
        d < 10,
    ensures
        r@ == seq![digit_char(d as nat)],
{
    let r: &'static str = if d == 0 {
        "0"
    } else if d == 1 {
        "1"
    } else if d == 2 {
        "2"
    } else if d == 3 {
        "3"
    } else if d == 4 {
        "4"
    } else if d == 5 {
        "5"
    } else if d == 6 {
        "6"
    } else if d == 7 {
        "7"
    } else if d == 8 {
        "8"
    } else {
        "9"
    };
    proof {
        reveal_strlit("0");
        reveal_strlit("1");
        reveal_strlit("2");
        reveal_strlit("3");
        reveal_strlit("4");
        reveal_strlit("5");
        reveal_strlit("6");
        reveal_strlit("7");
        reveal_strlit("8");
        reveal_strlit("9");
        assert(r@ =~= seq![digit_char(d as nat)]);
    }
    r
}

/// The decimal digits of `n`, plain.
pub(crate) fn decimal_text(n: u64) -> (r: String)
    ensures
        r@ == dec_digits(n as nat),
    decreases n,
{
    if n < 10 {
        digit_text(n).to_owned()
    } else {
        let mut r = decimal_text(n / 10);
        r.append(digit_text(n % 10));
        assert(r@ =~= dec_digits(n as nat));
        r
    }
}

/// Relies on num_format's `ToFormattedString::to_formatted_string` with
/// `Locale::en`, whose grouping is `Standard` (threes) and whose separator
/// is ",": the decimal digits of `n` with a comma between each group of
/// three, counted from the right.
#[verifier::external_body]
pub(crate) fn comma_grouped_text(n: u64) -> (r: String)
    ensures
        r@ == comma_grouped(n as nat),
{
    n.to_formatted_string(&num_format::Locale::en)
}

} // verus!
