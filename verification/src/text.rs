//! Plain-text building blocks: decimal numerals, padding and rounding.

use vstd::prelude::*;
use vstd::string::*;

verus! {

/// The character of the decimal digit `d`.
pub open spec fn digit_char(d: nat) -> char
    recommends
        d < 10,
{
    ((48 + d) as u8) as char
}

/// The decimal numeral of `n`, without sign or leading zeros.
pub open spec fn decimal(n: nat) -> Seq<char>
    decreases n,
{
    if n < 10 {
        seq![digit_char(n)]
    } else {
        decimal(n / 10).push(digit_char(n % 10))
    }
}

/// `s` moved to the right edge of a column of `width` characters; a text
/// that is already wider is left as it is.
pub open spec fn pad_left(s: Seq<char>, width: nat) -> Seq<char> {
    if s.len() >= width {
        s
    } else {
        Seq::new((width - s.len()) as nat, |i: int| ' ') + s
    }
}

/// `s` at the left edge of a column of `width` characters.
pub open spec fn pad_right(s: Seq<char>, width: nat) -> Seq<char> {
    if s.len() >= width {
        s
    } else {
        s + Seq::new((width - s.len()) as nat, |i: int| ' ')
    }
}

/// `num / den` rounded to the nearest integer, a tie going to the even
/// neighbour.
pub open spec fn round_half_even(num: nat, den: nat) -> nat
    recommends
        den > 0,
{
    let q = num / den;
    let r = num % den;
    if 2 * r > den || (2 * r == den && q % 2 == 1) {
        q + 1
    } else {
        q
    }
}

/// A count of tenths written with one decimal place.
pub open spec fn one_decimal(tenths: nat) -> Seq<char> {
    decimal(tenths / 10).push('.').push(digit_char(tenths % 10))
}

/// A count of hundredths written with two decimal places.
pub open spec fn two_decimals(hundredths: nat) -> Seq<char> {
    decimal(hundredths / 100).push('.').push(digit_char(hundredths % 100 / 10)).push(
        digit_char(hundredths % 10),
    )
}

/// The share `num * 100 / den`, rounded to the nearest hundredth (a tie goes
/// to the even one) and written with two decimal places. A zero denominator
/// has no finite share: it is written `NaN` for `0 / 0` and `inf` otherwise.
pub open spec fn percent_text(num: nat, den: nat) -> Seq<char> {
    if den == 0 {
        if num == 0 {
            seq!['N', 'a', 'N']
        } else {
            seq!['i', 'n', 'f']
        }
    } else {
        two_decimals(round_half_even(num * 10000, den))
    }
}

/// Appends one character. Trusted: `String::push` puts the given character
/// at the end of the string and changes nothing before it.
#[verifier::external_body]
pub(crate) fn push_char(out: &mut String, c: char)
    ensures
        final(out)@ == old(out)@.push(c),
{
    out.push(c);
}

pub(crate) fn digit_of(d: u128) -> (c: char)
    requires
        d < 10,
    ensures
        c == digit_char(d as nat),
{
    let b: u8 = 48u8 + (d as u8);
    b as char
}

/// Appends the decimal numeral of `n`.
pub fn push_decimal(out: &mut String, n: u128)
    ensures
        final(out)@ == old(out)@ + decimal(n as nat),
    decreases n,
{
    if n >= 10 {
        push_decimal(out, n / 10);
    }
    push_char(out, digit_of(n % 10));
    proof {
        assert(final(out)@ =~= old(out)@ + decimal(n as nat));
    }
}

/// Appends `count` spaces.
pub fn push_spaces(out: &mut String, count: usize)
    ensures
        final(out)@ == old(out)@ + Seq::new(count as nat, |i: int| ' '),
{
    let mut i: usize = 0;
    while i < count
        invariant
            i <= count,
            out@ == old(out)@ + Seq::new(i as nat, |k: int| ' '),
        decreases count - i,
    {
        push_char(out, ' ');
        i += 1;
        proof {
            assert(out@ =~= old(out)@ + Seq::new(i as nat, |k: int| ' '));
        }
    }
}

/// Appends `cell` right-aligned in a column of `width` characters.
pub fn push_right(out: &mut String, cell: &str, width: usize)
    ensures
        final(out)@ == old(out)@ + pad_left(cell@, width as nat),
{
    let n = cell.unicode_len();
    if n < width {
        push_spaces(out, width - n);
    }
    out.append(cell);
    proof {
        assert(final(out)@ =~= old(out)@ + pad_left(cell@, width as nat));
    }
}

/// Appends `cell` left-aligned in a column of `width` characters.
pub fn push_left(out: &mut String, cell: &str, width: usize)
    ensures
        final(out)@ == old(out)@ + pad_right(cell@, width as nat),
{
    let n = cell.unicode_len();
    out.append(cell);
    if n < width {
        push_spaces(out, width - n);
    }
    proof {
        assert(final(out)@ =~= old(out)@ + pad_right(cell@, width as nat));
    }
}

/// `num / den` rounded to the nearest integer, ties to even.
pub fn rounded_quotient(num: u128, den: u128) -> (q: u128)
    requires
        den > 0,
    ensures
        q == round_half_even(num as nat, den as nat),
{
    let q = num / den;
    let r = num % den;
    if r > den - r || (r == den - r && q % 2 == 1) {
        assert(q < u128::MAX) by (nonlinear_arith)
            requires
                q == num / den,
                r == num % den,
                r > 0,
                den > 0,
                num <= u128::MAX,
        {
            assert(num == den * (num / den) + num % den);
            if q >= u128::MAX {
                assert(den * q >= q);
            }
        }
        q + 1
    } else {
        q
    }
}

/// Appends the share `num * 100 / den` with two decimal places.
pub fn push_percent(out: &mut String, num: u64, den: u64)
    ensures
        final(out)@ == old(out)@ + percent_text(num as nat, den as nat),
{
    if den == 0 {
        if num == 0 {
            push_char(out, 'N');
            push_char(out, 'a');
            push_char(out, 'N');
        } else {
            push_char(out, 'i');
            push_char(out, 'n');
            push_char(out, 'f');
        }
    } else {
        let h = rounded_quotient((num as u128) * 10000, den as u128);
        push_decimal(out, h / 100);
        push_char(out, '.');
        push_char(out, digit_of(h % 100 / 10));
        push_char(out, digit_of(h % 10));
    }
    proof {
        assert(final(out)@ =~= old(out)@ + percent_text(num as nat, den as nat));
    }
}

} // verus!
