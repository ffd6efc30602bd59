//! The grid as text for a terminal: two characters per cell, one line per row,
//! live cells coloured by the neighbour count cached for them.

use crate::conway_core::ConwayMatrix;
use crate::life::{CellView, Grid};
use colored::{Color, Colorize};
use vstd::prelude::*;

verus! {

/// The colours a live cell is shown in.
#[derive(Clone, Copy, Debug, PartialEq, Eq, Structural)]
pub enum Tint {
    Purple,
    Magenta,
    Green,
    Yellow,
    Red,
    White,
}

/// The colour for a live cell with the given cached neighbour count: one each
/// for the counts one to five, white for every other count.
pub open spec fn tint_for(neighbors: nat) -> Tint {
    if neighbors == 1 {
        Tint::Purple
    } else if neighbors == 2 {
        Tint::Magenta
    } else if neighbors == 3 {
        Tint::Green
    } else if neighbors == 4 {
        Tint::Yellow
    } else if neighbors == 5 {
        Tint::Red
    } else {
        Tint::White
    }
}

/// The two characters of a live cell, before any colour: a filled square and
/// a space.
pub open spec fn alive_glyph() -> Seq<char> {
    seq!['\u{25a0}', ' ']
}

/// The two characters of a dead cell.
pub open spec fn dead_glyph() -> Seq<char> {
    seq!['O', ' ']
}

/// The number by which an ANSI terminal knows the colour, in digits: each
/// colour has its own. Purple is the terminal's bright magenta.
pub open spec fn ansi_color_digits(tint: Tint) -> Seq<char> {
    match tint {
        Tint::Purple => seq!['9', '5'],
        Tint::Magenta => seq!['3', '5'],
        Tint::Green => seq!['3', '2'],
        Tint::Yellow => seq!['3', '3'],
        Tint::Red => seq!['3', '1'],
        Tint::White => seq!['3', '7'],
    }
}

/// `text` between the escape sequence that switches a terminal to bold and to
/// the colour, and the one that resets it.
pub open spec fn bold_in_color(text: Seq<char>, tint: Tint) -> Seq<char> {
    seq!['\u{1b}', '[', '1', ';'] + ansi_color_digits(tint) + seq!['m'] + text + seq![
        '\u{1b}',
        '[',
        '0',
        'm',
    ]
}

/// Styles `text` bold and in the colour of `tint` with the `colored` crate:
/// `text.color(..).bold().to_string()`, with `colored`'s bright magenta for
/// purple, so that purple and magenta are told apart.
///
/// Trusted: `colored` decides from the process's environment and from its
/// override switch whether to write escape sequences, so the text comes back
/// either as it is or wrapped as `bold_in_color` says; which of the two is not
/// claimed, and that the switch is not thrown while the call runs is taken
/// for granted. The text must hold no escape character, since `colored`
/// rewrites reset sequences that it finds inside.
#[verifier::external_body]
fn paint_bold(text: &str, tint: Tint) -> (painted: String)
    requires
        !text@.contains('\u{1b}'),
    ensures
        painted@ == text@ || painted@ == bold_in_color(text@, tint),
{
    let color = match tint {
        Tint::Purple => Color::BrightMagenta,
        Tint::Magenta => Color::Magenta,
        Tint::Green => Color::Green,
        Tint::Yellow => Color::Yellow,
        Tint::Red => Color::Red,
        Tint::White => Color::White,
    };
    text.color(color).bold().to_string()
}

/// What a palette holds: the text of a live cell for each colour.
pub struct Glyphs {
    pub purple: Seq<char>,
    pub magenta: Seq<char>,
    pub green: Seq<char>,
    pub yellow: Seq<char>,
    pub red: Seq<char>,
    pub white: Seq<char>,
}

impl Glyphs {
    /// The text of a live cell of the given colour.
    pub open spec fn of(self, tint: Tint) -> Seq<char> {
        match tint {
            Tint::Purple => self.purple,
            Tint::Magenta => self.magenta,
            Tint::Green => self.green,
            Tint::Yellow => self.yellow,
            Tint::Red => self.red,
            Tint::White => self.white,
        }
    }

    /// Every text is the live glyph, plain or bold in its colour: what a
    /// terminal palette can be.
    pub open spec fn for_terminal(self) -> bool {
        forall|tint: Tint|
            #![trigger self.of(tint)]
            self.of(tint) == alive_glyph() || self.of(tint) == bold_in_color(alive_glyph(), tint)
    }
}

/// The text of a live cell, colour by colour, ready to be written.
pub struct Palette {
    purple: String,
    magenta: String,
    green: String,
    yellow: String,
    red: String,
    white: String,
}

impl View for Palette {
    type V = Glyphs;

    closed spec fn view(&self) -> Glyphs {
        Glyphs {
            purple: self.purple@,
            magenta: self.magenta@,
            green: self.green@,
            yellow: self.yellow@,
            red: self.red@,
            white: self.white@,
        }
    }
}

impl Palette {
    /// A palette of the given texts.
    pub fn new(
        purple: String,
        magenta: String,
        green: String,
        yellow: String,
        red: String,
        white: String,
    ) -> (palette: Self)
        ensures
            palette@ == (Glyphs {
                purple: purple@,
                magenta: magenta@,
                green: green@,
                yellow: yellow@,
                red: red@,
                white: white@,
            }),
    {
        Palette { purple, magenta, green, yellow, red, white }
    }

    /// The palette of the terminal the process writes to: the live glyph in
    /// each colour, with escape sequences where the terminal is to get them.
    pub fn terminal() -> (palette: Self)
        ensures
            palette@.for_terminal(),
    {
        let glyph = "\u{25a0} ";
        proof {
            reveal_strlit("\u{25a0} ");
            assert(glyph@ =~= alive_glyph());
        }
        Palette {
            purple: paint_bold(glyph, Tint::Purple),
            magenta: paint_bold(glyph, Tint::Magenta),
            green: paint_bold(glyph, Tint::Green),
            yellow: paint_bold(glyph, Tint::Yellow),
            red: paint_bold(glyph, Tint::Red),
            white: paint_bold(glyph, Tint::White),
        }
    }

    /// The text of a live cell of the given colour.
    pub fn glyph(&self, tint: Tint) -> (text: &str)
        ensures
            text@ == self@.of(tint),
    {
        match tint {
            Tint::Purple => self.purple.as_str(),
            Tint::Magenta => self.magenta.as_str(),
            Tint::Green => self.green.as_str(),
            Tint::Yellow => self.yellow.as_str(),
            Tint::Red => self.red.as_str(),
            Tint::White => self.white.as_str(),
        }
    }
}

/// The colour for a live cell with the given cached neighbour count.
pub fn tint_of(neighbors: u64) -> (tint: Tint)
    ensures
        tint == tint_for(neighbors as nat),
{
    match neighbors {
        1 => Tint::Purple,
        2 => Tint::Magenta,
        3 => Tint::Green,
        4 => Tint::Yellow,
        5 => Tint::Red,
        _ => Tint::White,
    }
}

/// Each of the counts one to five has a colour that no other count has.
pub proof fn lemma_counts_have_their_own_tint(count: nat, other: nat)
    requires
        1 <= count <= 5,
        other != count,
    ensures
        tint_for(count) != tint_for(other),
{
}

/// Different colours are different to the terminal: their numbers differ, and
/// so does any text styled in them.
pub proof fn lemma_tints_are_told_apart(text: Seq<char>, tint: Tint, other: Tint)
    requires
        tint != other,
    ensures
        ansi_color_digits(tint) != ansi_color_digits(other),
        bold_in_color(text, tint) != bold_in_color(text, other),
{
    let a = bold_in_color(text, tint);
    let b = bold_in_color(text, other);
    assert(a[4] == ansi_color_digits(tint)[0] && a[5] == ansi_color_digits(tint)[1]);
    assert(b[4] == ansi_color_digits(other)[0] && b[5] == ansi_color_digits(other)[1]);
    assert(ansi_color_digits(tint)[0] != ansi_color_digits(other)[0] || ansi_color_digits(tint)[1]
        != ansi_color_digits(other)[1]);
}

/// The text of one cell: the palette's text of its colour if it is alive, the
/// dead glyph if not.
pub open spec fn cell_text(cell: CellView, glyphs: Glyphs) -> Seq<char> {
    if cell.alive {
        glyphs.of(tint_for(cell.neighbors))
    } else {
        dead_glyph()
    }
}

/// The texts of the cells of a row, one after the other.
pub open spec fn row_text(row: Seq<CellView>, glyphs: Glyphs) -> Seq<char>
    decreases row.len(),
{
    if row.len() == 0 {
        Seq::empty()
    } else {
        row_text(row.drop_last(), glyphs) + cell_text(row.last(), glyphs)
    }
}

/// The text of a grid: each row's text and a line feed, top row first.
pub open spec fn grid_text(g: Grid, glyphs: Glyphs) -> Seq<char>
    decreases g.len(),
{
    if g.len() == 0 {
        Seq::empty()
    } else {
        grid_text(g.drop_last(), glyphs) + row_text(g.last(), glyphs) + seq!['\n']
    }
}

impl ConwayMatrix {
    /// The grid as text, live cells written as the palette has them.
    pub fn render(&self, palette: &Palette) -> (text: String)
        requires
            self.wf(),
        ensures
            text@ == grid_text(self@, palette@),
    {
        let size = self.size();
        let mut s = String::new();
        for y in 0..size
            invariant
                self.wf(),
                size == self@.len(),
                s@ == grid_text(self@.take(y as int), palette@),
        {
            let ghost done = s@;
            assert(self@[y as int].len() == size);
            for x in 0..size
                invariant
                    self.wf(),
                    size == self@.len(),
                    y < size,
                    self@[y as int].len() == size,
                    s@ == done + row_text(self@[y as int].take(x as int), palette@),
            {
                let cell = self.cell_at_index(x, y);
                if cell.is_alive() {
                    s.append(palette.glyph(tint_of(cell.neighbors())));
                } else {
                    proof {
                        reveal_strlit("O ");
                        assert("O "@ =~= dead_glyph());
                    }
                    s.append("O ");
                }
                proof {
                    let row = self@[y as int];
                    assert(row.take(x + 1).drop_last() =~= row.take(x as int));
                    assert(row.take(x + 1).last() == row[x as int]);
                    assert(s@ =~= done + row_text(row.take(x + 1), palette@));
                }
            }
            proof {
                reveal_strlit("\n");
                assert("\n"@ =~= seq!['\n']);
            }
            s.append("\n");
            proof {
                assert(self@[y as int].take(size as int) =~= self@[y as int]);
                assert(self@.take(y + 1).drop_last() =~= self@.take(y as int));
                assert(self@.take(y + 1).last() == self@[y as int]);
                assert(s@ =~= grid_text(self@.take(y + 1), palette@));
            }
        }
        assert(self@.take(size as int) =~= self@);
        s
    }

    /// The grid as text for the terminal of this process. Whether the live
    /// cells carry escape sequences for their colours is for the terminal
    /// palette to say; the text is that of `render` with such a palette.
    pub fn to_string(&self) -> (text: String)
        requires
            self.wf(),
        ensures
            exists|glyphs: Glyphs|
                glyphs.for_terminal() && text@ == #[trigger] grid_text(self@, glyphs),
    {
        let palette = Palette::terminal();
        self.render(&palette)
    }
}

} // verus!
