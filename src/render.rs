//! Text form of boolean grids: `#` for a live cell, a space for a dead one,
//! rows joined by newlines.

use crate::grid::{Grid, GridView, Row};
use itertools::Itertools;
use vstd::prelude::*;
use vstd::string::StringExecFns;

verus! {

pub open spec fn glyph(alive: bool) -> char {
    if alive {
        '#'
    } else {
        ' '
    }
}

/// One character per cell.
pub open spec fn row_text(cells: Seq<bool>) -> Seq<char> {
    cells.map_values(|c: bool| glyph(c))
}

/// `lines` with `sep` between each two neighbours; empty when there are none.
pub open spec fn joined(lines: Seq<Seq<char>>, sep: Seq<char>) -> Seq<char>
    decreases lines.len(),
{
    if lines.len() == 0 {
        Seq::empty()
    } else if lines.len() == 1 {
        lines[0]
    } else {
        joined(lines.drop_last(), sep) + sep + lines.last()
    }
}

/// The text of every row of `g`, top to bottom.
pub open spec fn row_texts(g: GridView<bool>) -> Seq<Seq<char>> {
    Seq::new(g.height, |y: int| row_text(g.row(y)))
}

/// The rows of `g` joined by newlines, with no newline after the last.
pub open spec fn grid_text(g: GridView<bool>) -> Seq<char> {
    joined(row_texts(g), seq!['\n'])
}

/// Relies on `Itertools::join`: the items' text with `sep` between each two
/// neighbours, and the empty string for no items.
#[verifier::external_body]
fn join_with(lines: &Vec<String>, sep: &str) -> (r: String)
    ensures
        r@ == joined(lines@.map_values(|s: String| s@), sep@),
{
    lines.iter().join(sep)
}

impl Row<bool> {
    /// `#` for each live cell and a space for each dead one.
    pub fn render(&self) -> (r: String)
        requires
            self.wf(),
        ensures
            r@ == row_text(self@),
    {
        let mut out = String::new();
        let mut x: u16 = 0;
        while x < self.width()
            invariant
                self.wf(),
                x <= self@.len(),
                out@ == row_text(self@.subrange(0, x as int)),
            decreases self@.len() - x,
        {
            let alive = *self.get(x).unwrap();
            proof {
                reveal_strlit("#");
                reveal_strlit(" ");
            }
            if alive {
                out.append("#");
            } else {
                out.append(" ");
            }
            assert(row_text(self@.subrange(0, x + 1)) =~= row_text(self@.subrange(0, x as int)).push(
                glyph(alive),
            ));
            x = x + 1;
        }
        assert(self@.subrange(0, x as int) =~= self@);
        out
    }
}

impl Grid<bool> {
    /// The rows top to bottom, joined by newlines, with no newline after the last.
    pub fn render(&self) -> (r: String)
        requires
            self.wf(),
        ensures
            r@ == grid_text(self@),
    {
        let mut lines: Vec<String> = Vec::new();
        let mut y: u16 = 0;
        while y < self.height()
            invariant
                self.wf(),
                y <= self@.height,
                lines@.map_values(|s: String| s@) =~= row_texts(self@).subrange(0, y as int),
            decreases self@.height - y,
        {
            let row = self.get_row(y).unwrap();
            let text = row.render();
            let ghost before = lines@;
            lines.push(text);
            assert(lines@.map_values(|s: String| s@) =~= before.map_values(|s: String| s@).push(text@));
            assert(row_texts(self@).subrange(0, y + 1) =~= row_texts(self@).subrange(0, y as int).push(
                row_text(self@.row(y as int)),
            ));
            y = y + 1;
        }
        assert(row_texts(self@).subrange(0, y as int) =~= row_texts(self@));
        proof {
            reveal_strlit("\n");
        }
        assert("\n"@ =~= seq!['\n']);
        join_with(&lines, "\n")
    }
}

} // verus!
