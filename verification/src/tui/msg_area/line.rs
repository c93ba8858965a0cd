//! One logical line of the message area.

use crate::tui::style::StyleRef;
use vstd::arithmetic::div_mod::lemma_div_is_ordered;
use vstd::arithmetic::div_mod::lemma_fundamental_div_mod;
use vstd::arithmetic::div_mod::lemma_fundamental_div_mod_converse;
use vstd::arithmetic::div_mod::lemma_mod_bound;
use vstd::prelude::*;

verus! {

/// One character and how it looks.
#[derive(Debug, PartialEq, Eq, Clone, Copy)]
pub struct Cell {
    pub ch: char,
    pub style: StyleRef,
}

/// The cell that shows `ch` in `style`.
pub open spec fn cell_of(ch: char, style: StyleRef) -> Cell {
    Cell { ch, style }
}

/// The cells that `text` gives when all of it is shown in `style`.
pub open spec fn styled(text: Seq<char>, style: StyleRef) -> Seq<Cell> {
    Seq::new(text.len(), |i: int| cell_of(text[i], style))
}

/// The rows that a line of `cells` cells takes in an area `width` columns
/// wide: one for each full row and one for what is left over. An empty
/// line takes one row, and so does any line where the area has no columns
/// to wrap at. The count stops at `i32::MAX`.
pub open spec fn rows_needed(cells: nat, width: int) -> int {
    if width <= 0 || cells == 0 {
        1
    } else {
        let rows = cells / (width as nat) + if cells % (width as nat) == 0 {
            0nat
        } else {
            1nat
        };
        if rows > i32::MAX {
            i32::MAX as int
        } else {
            rows as int
        }
    }
}

/// Where cell `i` of a line falls in an area `width` columns wide, as the
/// rows below the line's first row and the columns right of its left
/// edge. Where the area has no columns to wrap at, every cell stays on the
/// first row.
pub open spec fn cell_offset(i: nat, width: int) -> (int, int) {
    if width <= 0 {
        (0, i as int)
    } else {
        ((i / (width as nat)) as int, (i % (width as nat)) as int)
    }
}

/// The rows that a line is given hold all of its cells: each cell falls on
/// one of them, and within the width of the area.
pub proof fn lemma_cells_fall_within_rows(cells: nat, width: int, i: nat)
    requires
        i < cells,
        rows_needed(cells, width) < i32::MAX,
    ensures
        0 <= cell_offset(i, width).0 < rows_needed(cells, width),
        width > 0 ==> 0 <= cell_offset(i, width).1 < width,
{
    if width > 0 {
        let w = width;
        let q = cells as int / w;
        let r = cells as int % w;
        lemma_fundamental_div_mod(cells as int, w);
        lemma_mod_bound(cells as int, w);
        lemma_mod_bound(i as int, w);
        lemma_div_is_ordered(i as int, cells - 1, w);
        lemma_div_is_ordered(0, i as int, w);
        if r == 0 {
            assert(cells - 1 == (q - 1) * w + (w - 1)) by (nonlinear_arith)
                requires
                    cells == w * q + r,
                    r == 0,
            ;
            lemma_fundamental_div_mod_converse(cells - 1, w, q - 1, w - 1);
        } else {
            assert(cells - 1 == q * w + (r - 1)) by (nonlinear_arith)
                requires
                    cells == w * q + r,
            ;
            lemma_fundamental_div_mod_converse(cells - 1, w, q, r - 1);
        }
    }
}

/// A line of styled text, kept as the cells it will fill.
pub struct Line {
    cells: Vec<Cell>,
}

impl View for Line {
    type V = Seq<Cell>;

    closed spec fn view(&self) -> Seq<Cell> {
        self.cells@
    }
}

impl Line {
    /// The empty line.
    pub fn new() -> (line: Line)
        ensures
            line@ == Seq::<Cell>::empty(),
    {
        Line { cells: Vec::new() }
    }

    /// Appends `text`, all of it in `style`.
    pub fn add_text(&mut self, text: &str, style: StyleRef)
        ensures
            final(self)@ == old(self)@ + styled(text@, style),
    {
        proof {
            assert(self@ + styled(text@.take(0), style) =~= self@);
        }
        for ch in it: text.chars()
            invariant
                it.seq() == text@,
                self@ == old(self)@ + styled(text@.take(it.index() as int), style),
        {
            self.cells.push(Cell { ch, style });
            proof {
                let shorter = text@.take(it.index() as int);
                let longer = text@.take(it.index() + 1);
                assert(longer =~= shorter.push(ch));
                assert(styled(longer, style) =~= styled(shorter, style).push(cell_of(ch, style)));
                assert(self@ =~= old(self)@ + styled(longer, style));
            }
        }
        proof {
            assert(text@.take(text@.len() as int) =~= text@);
        }
    }

    /// How many cells the line holds.
    pub fn len(&self) -> (n: usize)
        ensures
            n == self@.len(),
    {
        self.cells.len()
    }

    /// The cell at `i`.
    pub fn cell(&self, i: usize) -> (cell: Cell)
        requires
            i < self@.len(),
        ensures
            cell == self@[i as int],
    {
        self.cells[i]
    }

    /// Where cell `i` falls in an area `width` columns wide: rows below the
    /// line's first row, then columns right of its left edge.
    pub fn offset_of(i: usize, width: i32) -> (at: (usize, usize))
        ensures
            (at.0 as int, at.1 as int) == cell_offset(i as nat, width as int),
    {
        if width <= 0 {
            (0, i)
        } else {
            let columns = width as usize;
            (i / columns, i % columns)
        }
    }

    /// The rows that the line takes in an area `width` columns wide.
    pub fn rendered_height(&self, width: i32) -> (rows: i32)
        ensures
            rows == rows_needed(self@.len(), width as int),
            rows >= 1,
    {
        let cells = self.cells.len();
        if width <= 0 || cells == 0 {
            return 1;
        }
        let columns = width as usize;
        let full = cells / columns;
        proof {
            lemma_fundamental_div_mod(cells as int, columns as int);
            lemma_mod_bound(cells as int, columns as int);
            assert(columns * full >= full && (full == 0 ==> columns * full == 0))
                by (nonlinear_arith)
                requires
                    columns >= 1,
                    full >= 0,
            ;
        }
        let rows = if cells % columns == 0 {
            full
        } else {
            full + 1
        };
        if rows > i32::MAX as usize {
            i32::MAX
        } else {
            rows as i32
        }
    }
}

} // verus!
