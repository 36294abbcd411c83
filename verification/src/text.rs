//! Verified text building: appending characters and the decimal form of a
//! channel value to a string.

use vstd::prelude::*;

verus! {

/// Relies on String::push: it appends exactly the given character.
pub assume_specification[ String::push ](s: &mut String, c: char)
    ensures
        final(s)@ == old(s)@.push(c),
;

/// The character of one decimal digit.
pub open spec fn digit_char(d: int) -> char {
    if d == 0 {
        '0'
    } else if d == 1 {
        '1'
    } else if d == 2 {
        '2'
    } else if d == 3 {
        '3'
    } else if d == 4 {
        '4'
    } else if d == 5 {
        '5'
    } else if d == 6 {
        '6'
    } else if d == 7 {
        '7'
    } else if d == 8 {
        '8'
    } else {
        '9'
    }
}

/// The decimal form of a channel value, without leading zeros.
pub open spec fn dec_chars(n: int) -> Seq<char> {
    if n < 10 {
        seq![digit_char(n)]
    } else if n < 100 {
        seq![digit_char(n / 10), digit_char(n % 10)]
    } else {
        seq![digit_char(n / 100), digit_char((n / 10) % 10), digit_char(n % 10)]
    }
}

/// The character of one decimal digit.
pub fn digit_to_char(d: u8) -> (c: char)
    requires
        d < 10,
    ensures
        c == digit_char(d as int),
{
    if d == 0 {
        '0'
    } else if d == 1 {
        '1'
    } else if d == 2 {
        '2'
    } else if d == 3 {
        '3'
    } else if d == 4 {
        '4'
    } else if d == 5 {
        '5'
    } else if d == 6 {
        '6'
    } else if d == 7 {
        '7'
    } else if d == 8 {
        '8'
    } else {
        '9'
    }
}

/// Append the decimal form of `n` to `s`.
pub fn push_decimal(s: &mut String, n: u8)
    ensures
        final(s)@ == old(s)@ + dec_chars(n as int),
{
    if n < 10 {
        s.push(digit_to_char(n));
        proof {
            assert(s@ =~= old(s)@ + dec_chars(n as int));
        }
    } else if n < 100 {
        s.push(digit_to_char(n / 10));
        s.push(digit_to_char(n % 10));
        proof {
            assert(s@ =~= old(s)@ + dec_chars(n as int));
        }
    } else {
        s.push(digit_to_char(n / 100));
        s.push(digit_to_char((n / 10) % 10));
        s.push(digit_to_char(n % 10));
        proof {
            assert(s@ =~= old(s)@ + dec_chars(n as int));
        }
    }
}

} // verus!
