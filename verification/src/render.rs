//! Terminal rendering of the board.  The frame, the labels and the glyph
//! drawn on every cell are fixed by the contract as a function of the
//! cells and the selection; coloring leans on the `colored` crate behind
//! trusted wrappers, which may wrap each glyph in color escapes.

use vstd::prelude::*;
use vstd::string::StringExecFns;

use colored::Colorize;

use crate::board::Board;
use crate::game::{diag_ok, GameState, Piece};
use crate::movegen::hint_move_ok;

verus! {

/// Relies on `colored::Colorize::normal` and `ColoredString`'s `Display`
/// impl: an unstyled `ColoredString` displays as exactly its input text.
#[verifier::external_body]
fn paint_plain(s: &str) -> (r: String)
    ensures
        r@ == s@,
{
    s.normal().to_string()
}

/// Relies on `colored::Colorize::bright_green` and `ColoredString`'s
/// `Display` impl: with coloring inactive the input text passes through
/// unchanged; with coloring active a style prefix and a reset suffix are
/// written around it.  A single-character input holds no inner reset
/// sequence, so the text itself is never rewritten.
#[verifier::external_body]
fn paint_bright_green(s: &str) -> (r: String)
    requires
        s@.len() == 1,
    ensures
        exists|pre: Seq<char>, post: Seq<char>| r@ == pre + s@ + post,
{
    s.bright_green().to_string()
}

/// Relies on `colored::Colorize::bright_black`; see `paint_bright_green`.
#[verifier::external_body]
fn paint_bright_black(s: &str) -> (r: String)
    requires
        s@.len() == 1,
    ensures
        exists|pre: Seq<char>, post: Seq<char>| r@ == pre + s@ + post,
{
    s.bright_black().to_string()
}

/// Relies on `colored::Colorize::bright_yellow`; see `paint_bright_green`.
#[verifier::external_body]
fn paint_bright_yellow(s: &str) -> (r: String)
    requires
        s@.len() == 1,
    ensures
        exists|pre: Seq<char>, post: Seq<char>| r@ == pre + s@ + post,
{
    s.bright_yellow().to_string()
}

/// Relies on `colored::Colorize::bright_red`; see `paint_bright_green`.
#[verifier::external_body]
fn paint_bright_red(s: &str) -> (r: String)
    requires
        s@.len() == 1,
    ensures
        exists|pre: Seq<char>, post: Seq<char>| r@ == pre + s@ + post,
{
    s.bright_red().to_string()
}

// ---------------------------------------------------------------------------
// What the display shows
// ---------------------------------------------------------------------------

/// The glyph drawn at cell `p`: the piece standing there; on an empty
/// cell, a dot where the selected piece could legally move, a cross
/// where diagonal edges exist, and a blank otherwise.
pub open spec fn glyph_of(s: GameState, sel: Option<usize>, p: int) -> Seq<char> {
    if s.cells[p] == Piece::Tiger {
        "T"@
    } else if s.cells[p] == Piece::Goat {
        "G"@
    } else if hint_move_ok(s, sel, p) {
        "•"@
    } else if diag_ok(p) {
        "×"@
    } else {
        " "@
    }
}

/// The printed label of a row.
pub open spec fn row_label(r: int) -> Seq<char> {
    if r == 0 {
        "1"@
    } else if r == 1 {
        "2"@
    } else if r == 2 {
        "3"@
    } else if r == 3 {
        "4"@
    } else {
        "5"@
    }
}

/// One rendered cell: its glyph between grid bars, wrapped in whatever
/// decoration the paint call put around it.
pub open spec fn cell_text(
    s: GameState,
    sel: Option<usize>,
    decor: Seq<(Seq<char>, Seq<char>)>,
    p: int,
) -> Seq<char> {
    " "@ + decor[p].0 + glyph_of(s, sel, p) + decor[p].1 + " │"@
}

/// The first `n` rendered cells of row `r`.
pub open spec fn row_cells(
    s: GameState,
    sel: Option<usize>,
    decor: Seq<(Seq<char>, Seq<char>)>,
    r: int,
    n: int,
) -> Seq<char>
    decreases n,
{
    if n <= 0 {
        Seq::empty()
    } else {
        row_cells(s, sel, decor, r, n - 1) + cell_text(s, sel, decor, r * 5 + (n - 1))
    }
}

/// One whole rendered row: label, cells and the separator line that
/// follows every row but the last.
pub open spec fn row_text(
    s: GameState,
    sel: Option<usize>,
    decor: Seq<(Seq<char>, Seq<char>)>,
    r: int,
) -> Seq<char> {
    " "@ + row_label(r) + " │"@ + row_cells(s, sel, decor, r, 5) + "\n"@
        + if r < 4 { "   ├───┼───┼───┼───┼───┤\n"@ } else { Seq::<char>::empty() }
}

/// The first `n` rendered rows.
pub open spec fn rows_text(
    s: GameState,
    sel: Option<usize>,
    decor: Seq<(Seq<char>, Seq<char>)>,
    n: int,
) -> Seq<char>
    decreases n,
{
    if n <= 0 {
        Seq::empty()
    } else {
        rows_text(s, sel, decor, n - 1) + row_text(s, sel, decor, n - 1)
    }
}

/// The whole display.  Everything but `decor` — the color escapes the
/// paint calls wrapped around each cell's glyph — is a function of the
/// cells and the selection alone.
pub open spec fn render_text(
    s: GameState,
    sel: Option<usize>,
    decor: Seq<(Seq<char>, Seq<char>)>,
) -> Seq<char> {
    "     A   B   C   D   E\n"@ + "   ┌───┬───┬───┬───┬───┐\n"@
        + rows_text(s, sel, decor, 5)
        + "   └───┴───┴───┴───┴───┘\n"@
}

/// Rendered cells read only the decoration entries of their own
/// indices, so a decoration that extends another renders the same cells.
proof fn lemma_row_cells_stable(
    s: GameState,
    sel: Option<usize>,
    d1: Seq<(Seq<char>, Seq<char>)>,
    d2: Seq<(Seq<char>, Seq<char>)>,
    r: int,
    n: int,
)
    requires
        0 <= n,
        0 <= r * 5,
        r * 5 + n <= d1.len(),
        d1.len() <= d2.len(),
        forall|p: int| 0 <= p < d1.len() ==> d1[p] == #[trigger] d2[p],
    ensures
        row_cells(s, sel, d1, r, n) == row_cells(s, sel, d2, r, n),
    decreases n,
{
    if n > 0 {
        assert(d1[r * 5 + (n - 1)] == d2[r * 5 + (n - 1)]);
        lemma_row_cells_stable(s, sel, d1, d2, r, n - 1);
    }
}

/// Rendered rows read only the decoration entries of their own cells,
/// so a decoration that extends another renders the same rows.
proof fn lemma_rows_text_stable(
    s: GameState,
    sel: Option<usize>,
    d1: Seq<(Seq<char>, Seq<char>)>,
    d2: Seq<(Seq<char>, Seq<char>)>,
    n: int,
)
    requires
        0 <= n,
        5 * n <= d1.len(),
        d1.len() <= d2.len(),
        forall|p: int| 0 <= p < d1.len() ==> d1[p] == #[trigger] d2[p],
    ensures
        rows_text(s, sel, d1, n) == rows_text(s, sel, d2, n),
    decreases n,
{
    if n > 0 {
        lemma_rows_text_stable(s, sel, d1, d2, n - 1);
        lemma_row_cells_stable(s, sel, d1, d2, n - 1, 5);
    }
}

impl Board {
    /// Draw the board as a framed grid: tigers as `T`, goats as `G`;
    /// empty cells show a dot where the selected piece could legally
    /// move, a cross where diagonal edges exist, and a blank otherwise.
    /// The output is pinned up to the color escapes around each glyph,
    /// which depend on whether coloring is active.
    #[verifier::rlimit(80)]
    pub fn display_with_hints(&self) -> (out: String)
        requires
            self@.cells.len() == 25,
            match self.selected_position {
                Some(p) => p < 25,
                None => true,
            },
        ensures
            exists|decor: Seq<(Seq<char>, Seq<char>)>|
                (decor.len() == 25
                    && out@ == render_text(self@, self.selected_position, decor)),
            out@.len() > 0,
    {
        let ghost mut gdecor: Seq<(Seq<char>, Seq<char>)> = Seq::empty();
        let mut out = String::new();
        out.append("     A   B   C   D   E\n");
        out.append("   ┌───┬───┬───┬───┬───┐\n");
        proof {
            assert(out@ =~= "     A   B   C   D   E\n"@ + "   ┌───┬───┬───┬───┬───┐\n"@
                + rows_text(self@, self.selected_position, gdecor, 0));
        }

        let mut row: usize = 0;
        while row < 5
            invariant
                row <= 5,
                self@.cells.len() == 25,
                match self.selected_position {
                    Some(p) => p < 25,
                    None => true,
                },
                gdecor.len() == 5 * row,
                out@ == "     A   B   C   D   E\n"@ + "   ┌───┬───┬───┬───┬───┐\n"@
                    + rows_text(self@, self.selected_position, gdecor, row as int),
            decreases 5 - row,
        {
            out.append(" ");
            let label = match row {
                0 => "1",
                1 => "2",
                2 => "3",
                3 => "4",
                _ => "5",
            };
            out.append(label);
            out.append(" │");

            let mut col: usize = 0;
            while col < 5
                invariant
                    col <= 5,
                    row < 5,
                    self@.cells.len() == 25,
                    match self.selected_position {
                        Some(p) => p < 25,
                        None => true,
                    },
                    gdecor.len() == 5 * row + col,
                    out@ == "     A   B   C   D   E\n"@ + "   ┌───┬───┬───┬───┬───┐\n"@
                        + rows_text(self@, self.selected_position, gdecor, row as int)
                        + " "@ + row_label(row as int) + " │"@
                        + row_cells(self@, self.selected_position, gdecor, row as int, col as int),
                decreases 5 - col,
            {
                let pos = row * 5 + col;
                proof {
                    reveal_strlit("T");
                    reveal_strlit("G");
                    reveal_strlit("•");
                    reveal_strlit("×");
                }
                let piece = match self.cells[pos] {
                    Piece::Empty => {
                        let reachable = match self.selected_position {
                            Some(sel) => self.is_valid_move(sel, pos),
                            None => false,
                        };
                        if reachable {
                            paint_bright_green("•")
                        } else if self.is_diagonal_allowed(pos) {
                            paint_bright_black("×")
                        } else {
                            paint_plain(" ")
                        }
                    },
                    Piece::Goat => paint_bright_yellow("G"),
                    Piece::Tiger => paint_bright_red("T"),
                };
                proof {
                    assert(exists|pre: Seq<char>, post: Seq<char>|
                        piece@ == pre + glyph_of(self@, self.selected_position, pos as int)
                            + post) by {
                        if piece@ == glyph_of(self@, self.selected_position, pos as int) {
                            assert(piece@ =~= Seq::<char>::empty()
                                + glyph_of(self@, self.selected_position, pos as int)
                                + Seq::<char>::empty());
                        }
                    }
                }
                out.append(" ");
                out.append(piece.as_str());
                out.append(" │");
                proof {
                    let (pre, post) = choose|pre: Seq<char>, post: Seq<char>|
                        piece@ == pre + glyph_of(self@, self.selected_position, pos as int) + post;
                    let prev = gdecor;
                    gdecor = gdecor.push((pre, post));
                    assert forall|p: int| 0 <= p < prev.len()
                        implies prev[p] == #[trigger] gdecor[p] by {
                        assert(prev.push((pre, post))[p] == prev[p]);
                    }
                    lemma_rows_text_stable(self@, self.selected_position, prev, gdecor, row as int);
                    lemma_row_cells_stable(
                        self@, self.selected_position, prev, gdecor, row as int, col as int);
                    assert(out@ =~= "     A   B   C   D   E\n"@ + "   ┌───┬───┬───┬───┬───┐\n"@
                        + rows_text(self@, self.selected_position, gdecor, row as int)
                        + " "@ + row_label(row as int) + " │"@
                        + row_cells(
                            self@, self.selected_position, gdecor, row as int, col as int + 1));
                }
                col += 1;
            }
            out.append("\n");

            if row < 4 {
                out.append("   ├───┼───┼───┼───┼───┤\n");
            }
            proof {
                assert(out@ =~= "     A   B   C   D   E\n"@ + "   ┌───┬───┬───┬───┬───┐\n"@
                    + rows_text(self@, self.selected_position, gdecor, row as int + 1));
            }
            row += 1;
        }

        out.append("   └───┴───┴───┴───┴───┘\n");
        proof {
            reveal_strlit("   └───┴───┴───┴───┴───┘\n");
            assert(out@ =~= render_text(self@, self.selected_position, gdecor));
        }
        out
    }
}

} // verus!
