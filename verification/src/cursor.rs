//! The escape sequences that place a line on its row and return to the anchor.
//!
//! All bars share one anchor line, the line of row 0, and the cursor rests in
//! its first column between two updates. A row is reached by going down from
//! the anchor and left by going up again, so no update moves the anchor.

use crossterm::cursor::{MoveToColumn, MoveUp};
use crossterm::style::Print;
use crossterm::terminal::{Clear, ClearType};
use crossterm::Command;
use vstd::prelude::*;
use crate::text::decimal;

verus! {

/// The two characters that introduce a control sequence.
pub open spec fn csi() -> Seq<char> {
    seq!['\x1b', '[']
}

/// The sequence that moves the cursor up by `n` lines.
pub open spec fn move_up_code(n: u16) -> Seq<char> {
    csi() + decimal(n as nat) + seq!['A']
}

/// The sequence that moves the cursor to column `col`, counted from 0.
pub open spec fn move_to_column_code(col: u16) -> Seq<char> {
    csi() + decimal((col + 1) as nat) + seq!['G']
}

/// The sequence that erases the line the cursor is on.
pub open spec fn clear_line_code() -> Seq<char> {
    csi() + seq!['2', 'K']
}

/// `n` line feeds.
pub open spec fn newlines(n: nat) -> Seq<char> {
    Seq::new(n, |i: int| '\n')
}

/// What is written to show `line` on `row`: down to the row, to its first
/// column, the line, back up, and to the first column of the anchor.
pub open spec fn draw_frame(row: u16, line: Seq<char>) -> Seq<char> {
    newlines(row as nat) + move_to_column_code(0) + line + (if row > 0 {
        move_up_code(row)
    } else {
        Seq::<char>::empty()
    }) + move_to_column_code(0)
}

/// What is written to erase `row`: down to the row, erase, back up, and to
/// the first column of the anchor.
pub open spec fn clear_frame(row: u16) -> Seq<char> {
    newlines(row as nat) + clear_line_code() + (if row > 0 {
        move_up_code(row)
    } else {
        Seq::<char>::empty()
    }) + move_to_column_code(0)
}

/// `crossterm::cursor::MoveUp(n)`, written as an ANSI sequence: the
/// introducer, `n` in decimal and the letter `A` are appended to `out`.
#[verifier::external_body]
fn queue_move_up(out: &mut String, n: u16)
    ensures
        final(out)@ == old(out)@ + move_up_code(n),
{
    let _ = MoveUp(n).write_ansi(out);
}

/// `crossterm::cursor::MoveToColumn(col)`, written as an ANSI sequence: the
/// introducer, `col + 1` in decimal and the letter `G` are appended to `out`.
/// The command adds one to `col` in 16 bits, so the largest column is left out.
#[verifier::external_body]
fn queue_move_to_column(out: &mut String, col: u16)
    requires
        col < u16::MAX,
    ensures
        final(out)@ == old(out)@ + move_to_column_code(col),
{
    let _ = MoveToColumn(col).write_ansi(out);
}

/// `crossterm::terminal::Clear(ClearType::CurrentLine)`, written as an ANSI
/// sequence: the introducer and `2K` are appended to `out`.
#[verifier::external_body]
fn queue_clear_line(out: &mut String)
    ensures
        final(out)@ == old(out)@ + clear_line_code(),
{
    let _ = Clear(ClearType::CurrentLine).write_ansi(out);
}

/// `crossterm::style::Print(text)`, written as an ANSI sequence: the text
/// itself is appended to `out`.
#[verifier::external_body]
fn queue_print(out: &mut String, text: &str)
    ensures
        final(out)@ == old(out)@ + text@,
{
    let _ = Print(text).write_ansi(out);
}

/// A string of `n` line feeds.
fn line_feeds(n: u16) -> (s: String)
    ensures
        s@ == newlines(n as nat),
{
    let mut s = String::new();
    let mut i: u16 = 0;
    while i < n
        invariant
            i <= n,
            s@ == newlines(i as nat),
        decreases n - i,
    {
        s.push('\n');
        i += 1;
        assert(s@ == newlines(i as nat));
    }
    s
}

/// Appends to `out` what shows `line` on `row`.
pub fn queue_draw(out: &mut String, row: u16, line: &str)
    ensures
        final(out)@ == old(out)@ + draw_frame(row, line@),
{
    let down = line_feeds(row);
    queue_print(out, down.as_str());
    queue_move_to_column(out, 0);
    queue_print(out, line);
    if row != 0 {
        queue_move_up(out, row);
    }
    queue_move_to_column(out, 0);
    assert(out@ == old(out)@ + draw_frame(row, line@));
}

/// Appends to `out` what erases `row`.
pub fn queue_clear(out: &mut String, row: u16)
    ensures
        final(out)@ == old(out)@ + clear_frame(row),
{
    let down = line_feeds(row);
    queue_print(out, down.as_str());
    queue_clear_line(out);
    if row != 0 {
        queue_move_up(out, row);
    }
    queue_move_to_column(out, 0);
    assert(out@ == old(out)@ + clear_frame(row));
}

} // verus!
