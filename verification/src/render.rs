//! A bar's line of text: the fill, the counts, the times and the rate.

use vstd::prelude::*;
use vstd::string::*;
use vstd::utf8::encode_utf8;
use crate::text::{
    clock, decimal, ftime, hundredths, push_decimal, push_hundredths, push_right3, right_aligned,
};

verus! {

/// Nanoseconds in a second.
pub const NANOS_PER_SEC: u64 = 1_000_000_000;

/// The share of the work that is done, as a fraction `(done, of)` between 0
/// and 1 with `of > 0`: `n / total`, cut off at 1. Of no work at all, nothing
/// is done while `n` is 0 and everything afterwards.
pub open spec fn fraction(n: nat, total: nat) -> (nat, nat) {
    if total == 0 {
        (if n == 0 { 0nat } else { 1nat }, 1nat)
    } else if n >= total {
        (total, total)
    } else {
        (n, total)
    }
}

/// The share of the work that is done, in whole percent.
pub open spec fn percent(n: nat, total: nat) -> nat {
    100 * fraction(n, total).0 / fraction(n, total).1
}

/// The number of full cells of a bar of `limit` cells at `num / den`.
pub open spec fn filled_cells(limit: nat, num: nat, den: nat) -> nat {
    limit * num / den
}

/// How far the cell after the full ones is filled, in steps of one `m`-th.
pub open spec fn partial_step(limit: nat, num: nat, den: nat, m: nat) -> nat {
    (limit * num % den) * m / den
}

/// The glyph of cell `i`: the last fill glyph in a full cell, the fill glyph
/// of the step reached in the cell after them, the background elsewhere and
/// in that cell while its first step is not reached.
pub open spec fn cell(i: int, filled: nat, step: nat, background: char, pattern: Seq<char>) -> char {
    if i < filled {
        pattern.last()
    } else if i == filled && step > 0 {
        pattern[step - 1]
    } else {
        background
    }
}

/// The fill of a bar of `limit` cells at `num / den`.
pub open spec fn bar(limit: nat, num: nat, den: nat, background: char, pattern: Seq<char>) -> Seq<
    char,
> {
    Seq::new(
        limit,
        |i: int|
            cell(
                i,
                filled_cells(limit, num, den),
                partial_step(limit, num, den, pattern.len()),
                background,
                pattern,
            ),
    )
}

/// The fill of a bar of `limit` cells at `num / den`, drawn with `background`
/// for the empty cells and `pattern` for the cells that fill up.
pub fn fill_bar(limit: usize, num: u64, den: u64, background: char, pattern: &Vec<char>) -> (pb:
    String)
    requires
        pattern@.len() > 0,
        den > 0,
        num <= den,
    ensures
        pb@ == bar(limit as nat, num as nat, den as nat, background, pattern@),
{
    let m = pattern.len();
    assert(limit * num <= u128::MAX) by (nonlinear_arith)
        requires
            limit <= u64::MAX,
            num <= u64::MAX,
    ;
    let scaled: u128 = (limit as u128) * (num as u128);
    let filled: u128 = scaled / (den as u128);
    let rest: u128 = scaled % (den as u128);
    assert(rest * m <= u128::MAX) by (nonlinear_arith)
        requires
            rest < den,
            den <= u64::MAX,
            m <= u64::MAX,
    ;
    let step: u128 = rest * (m as u128) / (den as u128);
    assert(step < m) by {
        assert(rest * m < den * m) by (nonlinear_arith)
            requires
                rest < den,
                m > 0,
        ;
        vstd::arithmetic::div_mod::lemma_div_by_multiple_is_strongly_ordered(
            (rest * m) as int,
            (den * m) as int,
            m as int,
            den as int,
        );
        assert(den * m == m * den) by (nonlinear_arith);
        vstd::arithmetic::div_mod::lemma_div_by_multiple(m as int, den as int);
    }
    let full = pattern[m - 1];
    let mut pb = String::new();
    let mut i: usize = 0;
    while i < limit
        invariant
            i <= limit,
            pattern@.len() == m,
            m > 0,
            full == pattern@.last(),
            step < m,
            filled == filled_cells(limit as nat, num as nat, den as nat),
            step == partial_step(limit as nat, num as nat, den as nat, m as nat),
            pb@ == Seq::new(i as nat, |k: int| cell(k, filled as nat, step as nat, background, pattern@)),
        decreases limit - i,
    {
        let glyph = if (i as u128) < filled {
            full
        } else if (i as u128) == filled && step > 0 {
            pattern[(step - 1) as usize]
        } else {
            background
        };
        pb.push(glyph);
        i += 1;
        assert(pb@ =~= Seq::new(
            i as nat,
            |k: int| cell(k, filled as nat, step as nat, background, pattern@),
        ));
    }
    pb
}

/// The text of an optional string.
pub open spec fn opt_text(o: Option<String>) -> Option<Seq<char>> {
    match o {
        Some(s) => Some(s@),
        None => None,
    }
}

/// The description as it opens a line: followed by a colon and a space.
pub open spec fn prefix(desc: Option<Seq<char>>) -> Seq<char> {
    match desc {
        Some(d) => d + seq![':', ' '],
        None => Seq::empty(),
    }
}

/// The postfix as it closes a line: after a comma and a space.
pub open spec fn suffix(postfix: Option<Seq<char>>) -> Seq<char> {
    match postfix {
        Some(p) => seq![',', ' '] + p,
        None => Seq::empty(),
    }
}

/// Steps per second in hundredths, for `n` steps in `elapsed` nanoseconds,
/// `elapsed` not 0: rounded to the nearest hundredth, and to the even one
/// where two are equally near.
pub open spec fn rate_hundredths(n: nat, elapsed: nat) -> nat {
    let scaled = n * 100_000_000_000;
    let whole = scaled / elapsed;
    let rest = scaled % elapsed;
    if 2 * rest > elapsed || (2 * rest == elapsed && whole % 2 == 1) {
        whole + 1
    } else {
        whole
    }
}

/// The rate with two decimal places. When no time has passed it is not a
/// number while nothing is done, and infinite afterwards.
pub open spec fn rate_text(n: nat, elapsed: nat) -> Seq<char> {
    if elapsed == 0 {
        if n == 0 {
            seq!['N', 'a', 'N']
        } else {
            seq!['i', 'n', 'f']
        }
    } else {
        hundredths(rate_hundredths(n, elapsed))
    }
}

/// The whole seconds the rest will take at the pace so far, for `n > 0`:
/// the time that has passed, times the share that is left, by the share
/// that is done; no more than 64 bits hold.
pub open spec fn eta_seconds(n: nat, total: nat, elapsed: nat) -> nat {
    let (done, of) = fraction(n, total);
    let seconds = (elapsed * (of - done) / (done as int)) / (NANOS_PER_SEC as int);
    if seconds > u64::MAX {
        u64::MAX as nat
    } else {
        seconds as nat
    }
}

/// The time the rest will take, or a question mark while nothing is done.
pub open spec fn eta_text(n: nat, total: nat, elapsed: nat) -> Seq<char> {
    if n == 0 {
        seq!['?']
    } else {
        clock(eta_seconds(n, total, elapsed))
    }
}

/// The part of a bounded line before the fill.
pub open spec fn bra(desc: Option<Seq<char>>, n: nat, total: nat) -> Seq<char> {
    prefix(desc) + right_aligned(decimal(percent(n, total)), 3) + seq!['%', '|']
}

/// The part of a bounded line after the fill.
pub open spec fn ket(postfix: Option<Seq<char>>, n: nat, total: nat, elapsed: nat) -> Seq<char> {
    seq!['|', ' '] + decimal(n) + seq!['/'] + decimal(total) + seq![' ', '['] + clock(
        elapsed / (NANOS_PER_SEC as nat),
    ) + seq!['<'] + eta_text(n, total, elapsed) + seq![',', ' '] + rate_text(n, elapsed) + seq![
        'i',
        't',
        '/',
        's',
    ] + suffix(postfix) + seq![']']
}

/// The number of bytes that `s` takes in UTF-8, as the machine counts them.
pub open spec fn byte_len(s: Seq<char>) -> usize {
    encode_utf8(s).len() as usize
}

/// The cells left for the fill: the width less the bytes before and after it.
pub open spec fn bar_limit(width: u16, before: Seq<char>, after: Seq<char>) -> nat {
    if width > byte_len(before) + byte_len(after) {
        (width - byte_len(before) - byte_len(after)) as nat
    } else {
        0
    }
}

/// The line of a bar with a bound: description, percentage, fill, counts,
/// time passed and time left, rate, postfix.
pub open spec fn bounded_line(
    desc: Option<Seq<char>>,
    postfix: Option<Seq<char>>,
    background: char,
    pattern: Seq<char>,
    width: u16,
    n: nat,
    total: nat,
    elapsed: nat,
) -> Seq<char> {
    let before = bra(desc, n, total);
    let after = ket(postfix, n, total, elapsed);
    before + bar(
        bar_limit(width, before, after),
        fraction(n, total).0,
        fraction(n, total).1,
        background,
        pattern,
    ) + after
}

/// The line of a bar without a bound: description, count, time passed,
/// rate, postfix.
pub open spec fn unbounded_line(
    desc: Option<Seq<char>>,
    postfix: Option<Seq<char>>,
    n: nat,
    elapsed: nat,
) -> Seq<char> {
    prefix(desc) + decimal(n) + seq!['i', 't', ' ', '['] + clock(elapsed / (NANOS_PER_SEC as nat))
        + seq![',', ' '] + rate_text(n, elapsed) + seq!['i', 't', '/', 's'] + suffix(postfix)
        + seq![']']
}

/// `line` cut or filled up with spaces to exactly `cols` characters.
pub open spec fn fitted(line: Seq<char>, cols: nat) -> Seq<char> {
    if line.len() >= cols {
        line.subrange(0, cols as int)
    } else {
        line + Seq::new((cols - line.len()) as nat, |i: int| ' ')
    }
}

/// The share of the work that is done, as a fraction between 0 and 1.
pub fn progress(n: u64, total: u64) -> (f: (u64, u64))
    ensures
        (f.0 as nat, f.1 as nat) == fraction(n as nat, total as nat),
        f.0 <= f.1,
        f.1 > 0,
        n > 0 ==> f.0 > 0,
{
    if total == 0 {
        (if n == 0 { 0 } else { 1 }, 1)
    } else if n >= total {
        (total, total)
    } else {
        (n, total)
    }
}

fn push_prefix(out: &mut String, desc: &Option<String>)
    ensures
        final(out)@ == old(out)@ + prefix(opt_text(*desc)),
{
    match desc {
        Some(d) => {
            out.append(d.as_str());
            out.push(':');
            out.push(' ');
            assert(out@ =~= old(out)@ + prefix(opt_text(*desc)));
        },
        None => {
            assert(out@ =~= old(out)@ + prefix(opt_text(*desc)));
        },
    }
}

fn push_suffix(out: &mut String, postfix: &Option<String>)
    ensures
        final(out)@ == old(out)@ + suffix(opt_text(*postfix)),
{
    match postfix {
        Some(p) => {
            out.push(',');
            out.push(' ');
            out.append(p.as_str());
            assert(out@ =~= old(out)@ + suffix(opt_text(*postfix)));
        },
        None => {
            assert(out@ =~= old(out)@ + suffix(opt_text(*postfix)));
        },
    }
}

fn push_rate(out: &mut String, n: u64, elapsed: u64)
    ensures
        final(out)@ == old(out)@ + rate_text(n as nat, elapsed as nat),
{
    if elapsed == 0 {
        if n == 0 {
            out.push('N');
            out.push('a');
            out.push('N');
        } else {
            out.push('i');
            out.push('n');
            out.push('f');
        }
        assert(out@ =~= old(out)@ + rate_text(n as nat, elapsed as nat));
    } else {
        let scaled: u128 = (n as u128) * 100_000_000_000;
        let whole: u128 = scaled / (elapsed as u128);
        let rest: u128 = scaled % (elapsed as u128);
        let up = 2 * rest > elapsed as u128 || (2 * rest == elapsed as u128 && whole % 2 == 1);
        push_hundredths(out, if up { whole + 1 } else { whole });
    }
}

fn push_eta(out: &mut String, n: u64, total: u64, elapsed: u64)
    ensures
        final(out)@ == old(out)@ + eta_text(n as nat, total as nat, elapsed as nat),
{
    if n == 0 {
        out.push('?');
        assert(out@ =~= old(out)@ + eta_text(n as nat, total as nat, elapsed as nat));
    } else {
        let (done, of) = progress(n, total);
        assert(elapsed * (of - done) <= u128::MAX) by (nonlinear_arith)
            requires
                elapsed <= u64::MAX,
                0 <= of - done <= u64::MAX,
        ;
        let left: u128 = (elapsed as u128) * ((of - done) as u128) / (done as u128) / (
        NANOS_PER_SEC as u128);
        let seconds: u64 = if left > u64::MAX as u128 {
            u64::MAX
        } else {
            left as u64
        };
        let eta = ftime(seconds);
        out.append(eta.as_str());
    }
}

fn push_chars4(out: &mut String, a: char, b: char, c: char, d: char)
    ensures
        final(out)@ == old(out)@ + seq![a, b, c, d],
{
    out.push(a);
    out.push(b);
    out.push(c);
    out.push(d);
    assert(out@ =~= old(out)@ + seq![a, b, c, d]);
}

fn push_chars2(out: &mut String, a: char, b: char)
    ensures
        final(out)@ == old(out)@ + seq![a, b],
{
    out.push(a);
    out.push(b);
    assert(out@ =~= old(out)@ + seq![a, b]);
}

fn push_char(out: &mut String, a: char)
    ensures
        final(out)@ == old(out)@ + seq![a],
{
    out.push(a);
    assert(out@ =~= old(out)@ + seq![a]);
}

/// The line of a bar with a bound, `width` columns wide where the texts
/// around the fill leave room for it.
pub fn bounded_text(
    desc: &Option<String>,
    postfix: &Option<String>,
    background: char,
    pattern: &Vec<char>,
    width: u16,
    n: u64,
    total: u64,
    elapsed: u64,
) -> (line: String)
    requires
        pattern@.len() > 0,
    ensures
        line@ == bounded_line(
            opt_text(*desc),
            opt_text(*postfix),
            background,
            pattern@,
            width,
            n as nat,
            total as nat,
            elapsed as nat,
        ),
{
    let (done, of) = progress(n, total);
    assert(100 * done <= u128::MAX);
    let pct: u128 = 100 * (done as u128) / (of as u128);

    let mut before = String::new();
    push_prefix(&mut before, desc);
    push_right3(&mut before, pct);
    push_chars2(&mut before, '%', '|');
    assert(before@ =~= bra(opt_text(*desc), n as nat, total as nat));

    let mut after = String::new();
    push_chars2(&mut after, '|', ' ');
    push_decimal(&mut after, n as u128);
    push_char(&mut after, '/');
    push_decimal(&mut after, total as u128);
    push_chars2(&mut after, ' ', '[');
    let time = ftime(elapsed / NANOS_PER_SEC);
    after.append(time.as_str());
    push_char(&mut after, '<');
    push_eta(&mut after, n, total, elapsed);
    push_chars2(&mut after, ',', ' ');
    push_rate(&mut after, n, elapsed);
    push_chars4(&mut after, 'i', 't', '/', 's');
    push_suffix(&mut after, postfix);
    push_char(&mut after, ']');
    assert(after@ =~= ket(opt_text(*postfix), n as nat, total as nat, elapsed as nat));

    let limit: usize = (width as usize).saturating_sub(before.as_str().len()).saturating_sub(
        after.as_str().len(),
    );
    assert(limit == bar_limit(width, before@, after@));
    let pb = fill_bar(limit, done, of, background, pattern);
    let mut line = before;
    line.append(pb.as_str());
    line.append(after.as_str());
    line
}

/// The line of a bar without a bound.
pub fn unbounded_text(desc: &Option<String>, postfix: &Option<String>, n: u64, elapsed: u64) -> (line:
    String)
    ensures
        line@ == unbounded_line(opt_text(*desc), opt_text(*postfix), n as nat, elapsed as nat),
{
    let mut line = String::new();
    push_prefix(&mut line, desc);
    push_decimal(&mut line, n as u128);
    push_chars4(&mut line, 'i', 't', ' ', '[');
    let time = ftime(elapsed / NANOS_PER_SEC);
    line.append(time.as_str());
    push_chars2(&mut line, ',', ' ');
    push_rate(&mut line, n, elapsed);
    push_chars4(&mut line, 'i', 't', '/', 's');
    push_suffix(&mut line, postfix);
    push_char(&mut line, ']');
    assert(line@ =~= unbounded_line(
        opt_text(*desc),
        opt_text(*postfix),
        n as nat,
        elapsed as nat,
    ));
    line
}

/// `line` cut or filled up with spaces to exactly `cols` characters.
pub fn fit(line: String, cols: u16) -> (out: String)
    ensures
        out@ == fitted(line@, cols as nat),
{
    let len = line.as_str().unicode_len();
    if len >= cols as usize {
        line.as_str().substring_char(0, cols as usize).to_owned()
    } else {
        let mut out = line;
        let mut i: usize = len;
        while i < cols as usize
            invariant
                len <= i <= cols,
                len == line@.len(),
                out@ == line@ + Seq::new((i - len) as nat, |k: int| ' '),
            decreases cols - i,
        {
            out.push(' ');
            i += 1;
            assert(out@ =~= line@ + Seq::new((i - len) as nat, |k: int| ' '));
        }
        out
    }
}

} // verus!
