//! The built-in sets of glyphs a bar can be filled with.

use vstd::prelude::*;

verus! {

/// A set of glyphs: one for an empty cell, then the glyphs for a cell that
/// fills up, the last of them standing for a full cell.
#[derive(Clone, Copy, Debug, PartialEq, Eq)]
pub enum Style {
    ASCII,
    Block,
    Balloon,
}

impl Style {
    /// The glyphs of the style: the background first, then the fill glyphs
    /// from the emptiest to the full one.
    pub open spec fn glyphs(self) -> Seq<char> {
        match self {
            Style::ASCII => seq!['0', '1', '2', '3', '4', '5', '6', '7', '8', '9', '#'],
            Style::Block => seq![
                ' ',
                '\u{258F}',
                '\u{258E}',
                '\u{258D}',
                '\u{258C}',
                '\u{258B}',
                '\u{258A}',
                '\u{2589}',
                '\u{2588}',
            ],
            Style::Balloon => seq!['.', 'o', 'O', '@', '*'],
        }
    }

    /// The glyph of an empty cell.
    pub open spec fn spec_background(self) -> char {
        self.glyphs()[0]
    }

    /// The fill glyphs, from the emptiest to the full one.
    pub open spec fn spec_pattern(self) -> Seq<char> {
        self.glyphs().subrange(1, self.glyphs().len() as int)
    }

    /// The glyph of an empty cell.
    pub fn background(&self) -> (c: char)
        ensures
            c == self.spec_background(),
    {
        match self {
            Style::ASCII => '0',
            Style::Block => ' ',
            Style::Balloon => '.',
        }
    }

    /// The fill glyphs, from the emptiest to the full one; there is at least one.
    pub fn pattern(&self) -> (v: Vec<char>)
        ensures
            v@ == self.spec_pattern(),
            v@.len() > 0,
    {
        let v = match self {
            Style::ASCII => vec!['1', '2', '3', '4', '5', '6', '7', '8', '9', '#'],
            Style::Block => vec![
                '\u{258F}',
                '\u{258E}',
                '\u{258D}',
                '\u{258C}',
                '\u{258B}',
                '\u{258A}',
                '\u{2589}',
                '\u{2588}',
            ],
            Style::Balloon => vec!['o', 'O', '@', '*'],
        };
        assert(v@ =~= self.spec_pattern());
        v
    }
}

impl Default for Style {
    fn default() -> (s: Style)
        ensures
            s == Style::ASCII,
    {
        Style::ASCII
    }
}

} // verus!
