//! Decimal numbers and durations as text.

use vstd::prelude::*;

verus! {

/// `String::push` of the standard library: the string afterwards is the
/// string before with `ch` appended as its last character.
pub assume_specification[ String::push ](s: &mut String, ch: char)
    ensures
        final(s)@ == old(s)@.push(ch),
;

/// The character that stands for the digit `d`.
pub open spec fn digit(d: int) -> char {
    if d == 0 {
        '0'
    } else if d == 1 {
        '1'
    } else if d == 2 {
        '2'
    } else if d == 3 {
        '3'
    } else if d == 4 {
        '4'
    } else if d == 5 {
        '5'
    } else if d == 6 {
        '6'
    } else if d == 7 {
        '7'
    } else if d == 8 {
        '8'
    } else {
        '9'
    }
}

/// `n` in decimal, without leading zeros.
pub open spec fn decimal(n: nat) -> Seq<char>
    decreases n,
{
    if n < 10 {
        seq![digit(n as int)]
    } else {
        decimal(n / 10).push(digit((n % 10) as int))
    }
}

/// `n` in decimal, with a leading zero when it has one digit only.
pub open spec fn two_digits(n: nat) -> Seq<char> {
    if n < 10 {
        seq!['0'] + decimal(n)
    } else {
        decimal(n)
    }
}

/// `s` moved to the right edge of a field of `width` characters; a longer
/// text is left as it is.
pub open spec fn right_aligned(s: Seq<char>, width: nat) -> Seq<char> {
    if s.len() < width {
        Seq::new((width - s.len()) as nat, |i: int| ' ') + s
    } else {
        s
    }
}

/// A duration of whole seconds as `mm:ss`, or as `hh:mm:ss` from one hour on.
pub open spec fn clock(seconds: nat) -> Seq<char> {
    let hours = seconds / 3600;
    let minutes = seconds / 60 % 60;
    let rest = seconds % 60;
    if hours == 0 {
        two_digits(minutes) + seq![':'] + two_digits(rest)
    } else {
        two_digits(hours) + seq![':'] + two_digits(minutes) + seq![':'] + two_digits(rest)
    }
}

/// A number of hundredths with two decimal places, as in `12.50`.
pub open spec fn hundredths(h: nat) -> Seq<char> {
    decimal(h / 100) + seq!['.'] + two_digits(h % 100)
}

/// A number below 10 has one digit, one below 100 has two, and one that is
/// at least 100 has three or more.
pub proof fn lemma_decimal_len(n: nat)
    ensures
        decimal(n).len() >= 1,
        n < 10 ==> decimal(n).len() == 1,
        10 <= n < 100 ==> decimal(n).len() == 2,
        100 <= n ==> decimal(n).len() >= 3,
    decreases n,
{
    if n >= 10 {
        lemma_decimal_len(n / 10);
    }
}

fn digit_char(d: u8) -> (c: char)
    requires
        d < 10,
    ensures
        c == digit(d as int),
{
    match d {
        0 => '0',
        1 => '1',
        2 => '2',
        3 => '3',
        4 => '4',
        5 => '5',
        6 => '6',
        7 => '7',
        8 => '8',
        _ => '9',
    }
}

/// Appends `n` in decimal to `out`.
pub fn push_decimal(out: &mut String, n: u128)
    ensures
        final(out)@ == old(out)@ + decimal(n as nat),
    decreases n,
{
    if n >= 10 {
        push_decimal(out, n / 10);
    }
    let d: u8 = (n % 10) as u8;
    out.push(digit_char(d));
}

/// Appends `n` in decimal to `out`, with a leading zero when `n` is below 10.
pub fn push_two_digits(out: &mut String, n: u128)
    ensures
        final(out)@ == old(out)@ + two_digits(n as nat),
{
    if n < 10 {
        out.push('0');
    }
    push_decimal(out, n);
}

/// Appends `n`, right-aligned in a field of three characters, to `out`.
pub fn push_right3(out: &mut String, n: u128)
    ensures
        final(out)@ == old(out)@ + right_aligned(decimal(n as nat), 3),
{
    proof {
        lemma_decimal_len(n as nat);
    }
    let ghost pad = right_aligned(decimal(n as nat), 3).subrange(
        0,
        right_aligned(decimal(n as nat), 3).len() - decimal(n as nat).len(),
    );
    if n < 10 {
        out.push(' ');
        out.push(' ');
        assert(pad == seq![' ', ' ']);
    } else if n < 100 {
        out.push(' ');
        assert(pad == seq![' ']);
    } else {
        assert(pad == Seq::<char>::empty());
    }
    assert(out@ == old(out)@ + pad);
    assert(right_aligned(decimal(n as nat), 3) == pad + decimal(n as nat));
    push_decimal(out, n);
}

/// Appends a number of hundredths with two decimal places to `out`.
pub fn push_hundredths(out: &mut String, h: u128)
    ensures
        final(out)@ == old(out)@ + hundredths(h as nat),
{
    push_decimal(out, h / 100);
    out.push('.');
    push_two_digits(out, h % 100);
}

/// A duration of whole seconds as `mm:ss`, or as `hh:mm:ss` from one hour on.
pub fn ftime(seconds: u64) -> (s: String)
    ensures
        s@ == clock(seconds as nat),
{
    let m = seconds / 60 % 60;
    let s = seconds % 60;
    let h = seconds / 3600;
    let mut out = String::new();
    if h != 0 {
        push_two_digits(&mut out, h as u128);
        out.push(':');
    }
    push_two_digits(&mut out, m as u128);
    out.push(':');
    push_two_digits(&mut out, s as u128);
    out
}

} // verus!
