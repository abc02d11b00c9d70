//! Verified text building: decimal digit strings, thousands grouping and
//! left padding.  Two small trusted pieces sit at the boundary: pushing a
//! `char` onto a `String`, and `num_format`'s grouped rendering.

use vstd::prelude::*;

use num_format::ToFormattedString;

verus! {

/// The digit character for a value below ten.
pub open spec fn spec_digit(d: int) -> char {
    if d == 0 {
        '0'
    } else if d == 1 {
        '1'
    } else if d == 2 {
        '2'
    } else if d == 3 {
        '3'
    } else if d == 4 {
        '4'
    } else if d == 5 {
        '5'
    } else if d == 6 {
        '6'
    } else if d == 7 {
        '7'
    } else if d == 8 {
        '8'
    } else {
        '9'
    }
}

/// The decimal digit string of `n`, without sign or separators.
pub open spec fn spec_dec(n: nat) -> Seq<char>
    decreases n,
{
    if n < 10 {
        seq![spec_digit(n as int)]
    } else {
        spec_dec(n / 10) + seq![spec_digit((n % 10) as int)]
    }
}

/// `digits` with a comma inserted after every group of three characters,
/// counted from the right; shorter runs are left as they are.
pub open spec fn spec_group3(digits: Seq<char>) -> Seq<char>
    decreases digits.len(),
{
    if digits.len() <= 3 {
        digits
    } else {
        spec_group3(digits.take(digits.len() - 3)) + seq![','] + digits.skip(digits.len() - 3)
    }
}

/// A run of `n` spaces.
pub open spec fn spec_spaces(n: nat) -> Seq<char> {
    Seq::new(n, |i: int| ' ')
}

/// `s`, preceded by as many spaces as it takes to reach `width` characters.
pub open spec fn spec_pad_left(s: Seq<char>, width: nat) -> Seq<char> {
    if s.len() >= width {
        s
    } else {
        spec_spaces((width - s.len()) as nat) + s
    }
}

/// Relies on `String::push`: appends exactly the one character.
#[verifier::external_body]
pub(crate) fn push_char(s: &mut String, c: char)
    ensures
        final(s)@ == old(s)@.push(c),
{
    s.push(c);
}

/// The digit character of `d`.
pub fn digit_char(d: u64) -> (r: char)
    requires
        d < 10,
    ensures
        r == spec_digit(d as int),
{
    if d == 0 {
        '0'
    } else if d == 1 {
        '1'
    } else if d == 2 {
        '2'
    } else if d == 3 {
        '3'
    } else if d == 4 {
        '4'
    } else if d == 5 {
        '5'
    } else if d == 6 {
        '6'
    } else if d == 7 {
        '7'
    } else if d == 8 {
        '8'
    } else {
        '9'
    }
}

/// Appends the decimal digit string of `n` to `s`.
pub fn push_dec(s: &mut String, n: u128)
    ensures
        final(s)@ == old(s)@ + spec_dec(n as nat),
    decreases n,
{
    if n < 10 {
        push_char(s, digit_char(n as u64));
        proof {
            assert(old(s)@.push(spec_digit(n as int)) =~= old(s)@ + spec_dec(n as nat));
        }
    } else {
        push_dec(s, n / 10);
        push_char(s, digit_char((n % 10) as u64));
        proof {
            assert((old(s)@ + spec_dec((n / 10) as nat)).push(spec_digit((n % 10) as int))
                =~= old(s)@ + spec_dec(n as nat));
        }
    }
}

/// Relies on `num_format::ToFormattedString` for `u64` with `Locale::en`
/// (Standard grouping, separator `","`): the decimal digits of `n` with a
/// comma after every group of three, counted from the right.
#[verifier::external_body]
pub(crate) fn group_thousands(n: u64) -> (r: String)
    ensures
        r@ == spec_group3(spec_dec(n as nat)),
{
    n.to_formatted_string(&num_format::Locale::en)
}

/// `s` left-padded with spaces to `width` characters.
pub fn pad_left(s: &str, width: usize) -> (r: String)
    ensures
        r@ == spec_pad_left(s@, width as nat),
{
    let n = s.unicode_len();
    if n >= width {
        let mut r = String::new();
        r.append(s);
        proof {
            assert(Seq::<char>::empty() + s@ =~= s@);
        }
        return r;
    }
    let pad = width - n;
    let mut r = String::new();
    proof {
        assert(r@ =~= spec_spaces(0));
    }
    for i in 0..pad
        invariant
            r@ == spec_spaces(i as nat),
    {
        push_char(&mut r, ' ');
        proof {
            assert(spec_spaces(i as nat).push(' ') =~= spec_spaces((i + 1) as nat));
        }
    }
    r.append(s);
    r
}

} // verus!
