//! Diagnostic model for a memcached server: parses the answers to the
//! `stats` family of commands and renders a memory and hit-ratio summary.

use vstd::prelude::*;

pub mod error;
pub mod laws;
pub mod lex;
pub mod opts;
pub mod report;
pub mod stats;
pub mod text;

use crate::text::{
    decimal, digit_of, one_decimal, push_char, push_decimal, round_half_even, rounded_quotient,
};

verus! {

/// What the library's functions return where they can fail.
pub type Result<T, E = error::MCError> = std::result::Result<T, E>;

/// One component of a duration: nothing for zero, else the numeral and the
/// unit's letter.
pub open spec fn unit_text(n: nat, unit: char) -> Seq<char> {
    if n == 0 {
        Seq::empty()
    } else {
        decimal(n).push(unit)
    }
}

/// A number of seconds as days, hours, minutes and seconds. Components that
/// are zero are left out; a duration of zero is `0s`.
pub open spec fn duration_text(t: nat) -> Seq<char> {
    if t == 0 {
        seq!['0', 's']
    } else {
        unit_text(t / 86400, 'd') + unit_text(t % 86400 / 3600, 'h') + unit_text(
            t % 3600 / 60,
            'm',
        ) + unit_text(t % 60, 's')
    }
}

/// What `human_time` writes.
pub open spec fn human_time_text(o: bool, t: nat) -> Seq<char> {
    if o {
        duration_text(t)
    } else {
        decimal(t)
    }
}

/// The number of bytes in a kibibyte.
pub open spec fn kib() -> nat {
    1024
}

/// The number of bytes in a mebibyte.
pub open spec fn mib() -> nat {
    1024 * 1024
}

/// The number of bytes in a gibibyte.
pub open spec fn gib() -> nat {
    1024 * 1024 * 1024
}

/// A byte count in the largest unit that it reaches: divided by the unit,
/// rounded to the nearest tenth (a tie goes to the even one) and written
/// with one decimal place. Below 1024 it is the whole number of bytes.
pub open spec fn scaled_size_text(t: nat) -> Seq<char> {
    if t >= gib() {
        one_decimal(round_half_even(t * 10, gib())).push('g')
    } else if t >= mib() {
        one_decimal(round_half_even(t * 10, mib())).push('m')
    } else if t >= kib() {
        one_decimal(round_half_even(t * 10, kib())).push('k')
    } else {
        decimal(t).push('b')
    }
}

/// What `human_size` writes.
pub open spec fn human_size_text(o: bool, t: nat) -> Seq<char> {
    if o {
        scaled_size_text(t)
    } else {
        decimal(t)
    }
}

fn push_unit(out: &mut String, n: usize, unit: char)
    ensures
        final(out)@ == old(out)@ + unit_text(n as nat, unit),
{
    if n > 0 {
        push_decimal(out, n as u128);
        push_char(out, unit);
    }
    proof {
        assert(final(out)@ =~= old(out)@ + unit_text(n as nat, unit));
    }
}

/// Renders a number of seconds: the plain numeral when `o` is off, else the
/// compound form `<d>d<h>h<m>m<s>s` without its zero components.
pub fn human_time(o: bool, t: &usize) -> (r: String)
    ensures
        r@ == human_time_text(o, *t as nat),
{
    let t: usize = *t;
    let mut r = String::new();
    if !o {
        push_decimal(&mut r, t as u128);
    } else if t == 0 {
        push_char(&mut r, '0');
        push_char(&mut r, 's');
    } else {
        push_unit(&mut r, t / 86400, 'd');
        push_unit(&mut r, t % 86400 / 3600, 'h');
        push_unit(&mut r, t % 3600 / 60, 'm');
        push_unit(&mut r, t % 60, 's');
    }
    proof {
        assert(r@ =~= human_time_text(o, t as nat));
    }
    r
}

fn push_scaled(out: &mut String, t: usize, unit: u128, suffix: char)
    requires
        0 < unit,
    ensures
        final(out)@ == old(out)@ + one_decimal(round_half_even(t as nat * 10, unit as nat)).push(
            suffix,
        ),
{
    let tenths = rounded_quotient((t as u128) * 10, unit);
    push_decimal(out, tenths / 10);
    push_char(out, '.');
    push_char(out, digit_of(tenths % 10));
    push_char(out, suffix);
    proof {
        assert(final(out)@ =~= old(out)@ + one_decimal(
            round_half_even(t as nat * 10, unit as nat),
        ).push(suffix));
    }
}

/// Renders a byte count: the plain numeral when `o` is off, else scaled by
/// 1024 to `k`, `m` or `g` with one decimal place, or whole bytes with `b`.
pub fn human_size(o: bool, t: &usize) -> (r: String)
    ensures
        r@ == human_size_text(o, *t as nat),
{
    let t: usize = *t;
    let mut r = String::new();
    if !o {
        push_decimal(&mut r, t as u128);
    } else if t >= 1024 * 1024 * 1024 {
        push_scaled(&mut r, t, 1024 * 1024 * 1024, 'g');
    } else if t >= 1024 * 1024 {
        push_scaled(&mut r, t, 1024 * 1024, 'm');
    } else if t >= 1024 {
        push_scaled(&mut r, t, 1024, 'k');
    } else {
        push_decimal(&mut r, t as u128);
        push_char(&mut r, 'b');
    }
    proof {
        assert(r@ =~= human_size_text(o, t as nat));
    }
    r
}

} // verus!
