//! Decimal rendering of unsigned numbers: plain digits and zero-padded
//! fixed-width digit groups, as character sequences.

use vstd::prelude::*;

verus! {

/// The decimal digit character for `d` (meaningful for `d < 10`).
pub open spec fn digit_char(d: nat) -> char {
    if d == 0 {
        '0'
    } else if d == 1 {
        '1'
    } else if d == 2 {
        '2'
    } else if d == 3 {
        '3'
    } else if d == 4 {
        '4'
    } else if d == 5 {
        '5'
    } else if d == 6 {
        '6'
    } else if d == 7 {
        '7'
    } else if d == 8 {
        '8'
    } else {
        '9'
    }
}

/// The decimal digits of `n`, most significant first, without padding.
pub open spec fn dec_digits(n: nat) -> Seq<char>
    decreases n,
{
    if n < 10 {
        seq![digit_char(n)]
    } else {
        dec_digits(n / 10).push(digit_char(n % 10))
    }
}

/// The `width` lowest decimal digits of `n`, most significant first,
/// zero-padded on the left up to exactly `width` characters.
pub open spec fn pad_digits(n: nat, width: nat) -> Seq<char>
    decreases width,
{
    if width == 0 {
        Seq::empty()
    } else {
        pad_digits(n / 10, (width - 1) as nat).push(digit_char(n % 10))
    }
}

/// Decimal digits of `n`, zero-padded on the left to at least two characters.
pub open spec fn pad2(n: nat) -> Seq<char> {
    if n < 100 {
        pad_digits(n, 2)
    } else {
        dec_digits(n)
    }
}

/// Decimal digits of `n`, zero-padded on the left to at least three characters.
pub open spec fn pad3(n: nat) -> Seq<char> {
    if n < 1000 {
        pad_digits(n, 3)
    } else {
        dec_digits(n)
    }
}

fn digit_char_exec(d: u64) -> (c: char)
    requires
        d < 10,
    ensures
        c == digit_char(d as nat),
{
    match d {
        0 => '0',
        1 => '1',
        2 => '2',
        3 => '3',
        4 => '4',
        5 => '5',
        6 => '6',
        7 => '7',
        8 => '8',
        _ => '9',
    }
}

/// Append the decimal digits of `n` to `out`.
pub fn push_dec(out: &mut Vec<char>, n: u64)
    ensures
        final(out)@ == old(out)@ + dec_digits(n as nat),
    decreases n,
{
    if n < 10 {
        out.push(digit_char_exec(n));
        assert(out@ =~= old(out)@ + dec_digits(n as nat));
    } else {
        push_dec(out, n / 10);
        out.push(digit_char_exec(n % 10));
        assert(out@ =~= old(out)@ + dec_digits(n as nat));
    }
}

/// Append the `width` lowest decimal digits of `n` to `out`, zero-padded to
/// exactly `width` characters.
pub fn push_pad(out: &mut Vec<char>, n: u64, width: u64)
    ensures
        final(out)@ == old(out)@ + pad_digits(n as nat, width as nat),
    decreases width,
{
    if width == 0 {
        assert(out@ =~= old(out)@ + pad_digits(n as nat, 0));
    } else {
        push_pad(out, n / 10, width - 1);
        out.push(digit_char_exec(n % 10));
        assert(out@ =~= old(out)@ + pad_digits(n as nat, width as nat));
    }
}

/// Append the decimal digits of `n` to `out`, zero-padded on the left to at
/// least two characters.
pub fn push_pad2(out: &mut Vec<char>, n: u64)
    ensures
        final(out)@ == old(out)@ + pad2(n as nat),
{
    if n < 100 {
        push_pad(out, n, 2);
    } else {
        push_dec(out, n);
    }
}

/// Append the decimal digits of `n` to `out`, zero-padded on the left to at
/// least three characters.
pub fn push_pad3(out: &mut Vec<char>, n: u64)
    ensures
        final(out)@ == old(out)@ + pad3(n as nat),
{
    if n < 1000 {
        push_pad(out, n, 3);
    } else {
        push_dec(out, n);
    }
}

/// Relies on `String::push`: appends the given character to the end of the
/// string.
#[verifier::external_body]
pub(crate) fn push_char(s: &mut String, c: char)
    ensures
        final(s)@ == old(s)@.push(c),
{
    s.push(c);
}

/// Copy a character vector into a freshly allocated string.
pub fn chars_to_string(v: &Vec<char>) -> (s: String)
    ensures
        s@ == v@,
{
    let mut s = String::new();
    let mut i: usize = 0;
    while i < v.len()
        invariant
            i <= v.len(),
            s@ == v@.take(i as int),
        decreases v.len() - i,
    {
        push_char(&mut s, v[i]);
        i = i + 1;
        assert(s@ =~= v@.take(i as int));
    }
    assert(v@.take(v.len() as int) =~= v@);
    s
}

} // verus!
