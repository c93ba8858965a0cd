//! The scrollback buffer: finished lines, the line being written, and how
//! far the view is scrolled back from the newest line.

pub mod line;

use self::line::rows_needed;
use self::line::styled;
use self::line::Cell;
use self::line::Line;
use crate::tui::style::StyleRef;
use vstd::prelude::*;

verus! {

/// How many lines one page key moves the view.
pub const PAGE: i32 = 10;

/// The message area as a value: what it holds and where it looks.
pub struct MsgAreaView {
    /// The finished lines, oldest first.
    pub lines: Seq<Seq<Cell>>,
    pub width: int,
    pub height: int,
    /// How many lines the view is scrolled back: line
    /// `lines.len() - 1 - scroll` is the lowest one shown.
    pub scroll: int,
    /// The line being written.
    pub line_buf: Seq<Cell>,
}

impl MsgAreaView {
    /// The index of the newest line, or -1 where there is none.
    pub open spec fn last(self) -> int {
        self.lines.len() - 1
    }

    /// The view is never scrolled below the newest line nor above the
    /// oldest, and the lines can be counted in an `i32`.
    pub open spec fn wf(self) -> bool {
        &&& self.lines.len() <= i32::MAX
        &&& 0 <= self.scroll
        &&& self.scroll <= self.last() || self.scroll == 0
    }
}

/// Where one line is drawn.
#[derive(Debug, PartialEq, Eq, Clone, Copy)]
pub struct Placement {
    /// The line's index.
    pub line: usize,
    /// The screen column of the line's left edge.
    pub x: i32,
    /// The screen row of the line's first row.
    pub y: i32,
}

impl View for Placement {
    type V = (int, int, int);

    /// The line, its column and its row.
    open spec fn view(&self) -> (int, int, int) {
        (self.line as int, self.x as int, self.y as int)
    }
}

/// What a list of placements says, as `(line, row)` pairs.
pub open spec fn rows_of(placed: Seq<Placement>) -> Seq<(int, int)> {
    Seq::new(placed.len(), |i: int| (placed[i]@.0, placed[i]@.2))
}

/// The lines to draw and the row of each, as `(line, row)`, lowest first.
///
/// Starting with line `idx` at the bottom row `row`, lines are stacked
/// upwards, each taking the rows it needs at `width` columns, for as long as
/// the whole of the next line fits at or below the top row `top`. The
/// oldest line, at index 0, is never drawn.
pub open spec fn placements(lines: Seq<Seq<Cell>>, width: int, idx: int, row: int, top: int) -> Seq<
    (int, int),
>
    decreases idx,
{
    if idx <= 0 || row < top {
        Seq::empty()
    } else {
        let first_row = row - rows_needed(lines[idx].len(), width) + 1;
        if first_row < top {
            Seq::empty()
        } else {
            seq![(idx, first_row)] + placements(lines, width, idx - 1, first_row - 1, top)
        }
    }
}

/// What is drawn is a stack without gaps. The lines are consecutive,
/// newest lowest; the lowest one ends on the bottom row, each other one
/// ends on the row just above the line before it, and none starts above
/// the top row. So no two lines share a row and none leaves the area.
pub proof fn lemma_placements_stack(
    lines: Seq<Seq<Cell>>,
    width: int,
    idx: int,
    row: int,
    top: int,
    k: int,
)
    requires
        0 <= k < placements(lines, width, idx, row, top).len(),
    ensures
        ({
            let placed = placements(lines, width, idx, row, top);
            let (line, first_row) = placed[k];
            let last_row = first_row + rows_needed(lines[line].len(), width) - 1;
            &&& line == idx - k
            &&& line >= 1
            &&& top <= first_row
            &&& k == 0 ==> last_row == row
            &&& k > 0 ==> last_row == placed[k - 1].1 - 1
        }),
    decreases idx,
{
    if k > 0 {
        let first_row = row - rows_needed(lines[idx].len(), width) + 1;
        lemma_placements_stack(lines, width, idx - 1, first_row - 1, top, k - 1);
    }
}

/// A scrollback buffer with a view of `height` rows and `width` columns.
pub struct MsgArea {
    lines: Vec<Line>,
    width: i32,
    height: i32,
    scroll: i32,
    line_buf: Line,
}

impl View for MsgArea {
    type V = MsgAreaView;

    closed spec fn view(&self) -> MsgAreaView {
        MsgAreaView {
            lines: Seq::new(self.lines@.len(), |i: int| self.lines@[i]@),
            width: self.width as int,
            height: self.height as int,
            scroll: self.scroll as int,
            line_buf: self.line_buf@,
        }
    }
}

impl MsgArea {
    /// See [`MsgAreaView::wf`].
    pub open spec fn wf(&self) -> bool {
        self@.wf()
    }

    /// An empty area that shows its newest line.
    pub fn new(width: i32, height: i32) -> (area: MsgArea)
        ensures
            area.wf(),
            area@ == (MsgAreaView {
                lines: Seq::empty(),
                width: width as int,
                height: height as int,
                scroll: 0,
                line_buf: Seq::empty(),
            }),
    {
        let area = MsgArea {
            lines: Vec::new(),
            width: width,
            height: height,
            scroll: 0,
            line_buf: Line::new(),
        };
        proof {
            assert(area@.lines =~= Seq::empty());
        }
        area
    }

    /// Gives the view a new size. What it holds and where it looks stay.
    pub fn resize(&mut self, width: i32, height: i32)
        ensures
            final(self)@ == (MsgAreaView {
                width: width as int,
                height: height as int,
                ..old(self)@
            }),
    {
        self.width = width;
        self.height = height;
    }

    /// Scrolls one line back, unless the view is at the oldest line.
    pub fn scroll_up(&mut self)
        requires
            old(self).wf(),
        ensures
            final(self).wf(),
            final(self)@ == (MsgAreaView {
                scroll: if old(self)@.scroll < old(self)@.last() {
                    old(self)@.scroll + 1
                } else {
                    old(self)@.scroll
                },
                ..old(self)@
            }),
    {
        let last = self.lines.len() as i32 - 1;
        if self.scroll < last {
            self.scroll += 1;
        }
    }

    /// Scrolls one line forward, unless the view is at the newest line.
    pub fn scroll_down(&mut self)
        requires
            old(self).wf(),
        ensures
            final(self).wf(),
            final(self)@ == (MsgAreaView {
                scroll: if old(self)@.scroll > 0 {
                    old(self)@.scroll - 1
                } else {
                    old(self)@.scroll
                },
                ..old(self)@
            }),
    {
        if self.scroll > 0 {
            self.scroll -= 1;
        }
    }

    /// Scrolls a page back, but not past the oldest line.
    pub fn page_up(&mut self)
        requires
            old(self).wf(),
        ensures
            final(self).wf(),
            final(self)@ == (MsgAreaView {
                scroll: vstd::math::max(
                    0,
                    vstd::math::min(old(self)@.last(), old(self)@.scroll + PAGE),
                ),
                ..old(self)@
            }),
    {
        let last = self.lines.len() as i32 - 1;
        let reach = if self.scroll > last - PAGE {
            last
        } else {
            self.scroll + PAGE
        };
        self.scroll = if reach < 0 {
            0
        } else {
            reach
        };
    }

    /// Scrolls a page forward, but not past the newest line.
    pub fn page_down(&mut self)
        requires
            old(self).wf(),
        ensures
            final(self).wf(),
            final(self)@ == (MsgAreaView {
                scroll: vstd::math::max(0, old(self)@.scroll - PAGE),
                ..old(self)@
            }),
    {
        self.scroll = if self.scroll < PAGE {
            0
        } else {
            self.scroll - PAGE
        };
    }

    /// Appends `text`, in `style`, to the line being written.
    pub fn add_text(&mut self, text: &str, style: StyleRef)
        ensures
            final(self)@ == (MsgAreaView {
                line_buf: old(self)@.line_buf + styled(text@, style),
                ..old(self)@
            }),
    {
        self.line_buf.add_text(text, style);
    }

    /// Finishes the line being written: it becomes the newest line, and a
    /// new, empty line is begun. The scroll offset stays, so a view that
    /// was scrolled back now shows lines one newer.
    pub fn flush_line(&mut self)
        requires
            old(self).wf(),
            old(self)@.lines.len() < i32::MAX,
        ensures
            final(self).wf(),
            final(self)@ == (MsgAreaView {
                lines: old(self)@.lines.push(old(self)@.line_buf),
                line_buf: Seq::empty(),
                ..old(self)@
            }),
    {
        let mut line = Line::new();
        core::mem::swap(&mut self.line_buf, &mut line);
        self.lines.push(line);
        proof {
            assert(self@.lines =~= old(self)@.lines.push(old(self)@.line_buf));
        }
    }

    /// How many finished lines the area holds.
    pub fn len(&self) -> (n: usize)
        ensures
            n == self@.lines.len(),
    {
        self.lines.len()
    }

    /// The finished line at `i`.
    pub fn line(&self, i: usize) -> (line: &Line)
        requires
            i < self@.lines.len(),
        ensures
            line@ == self@.lines[i as int],
    {
        &self.lines[i]
    }

    /// The line being written.
    pub fn line_buf(&self) -> (line: &Line)
        ensures
            line@ == self@.line_buf,
    {
        &self.line_buf
    }

    pub fn width(&self) -> (width: i32)
        ensures
            width == self@.width,
    {
        self.width
    }

    pub fn height(&self) -> (height: i32)
        ensures
            height == self@.height,
    {
        self.height
    }

    pub fn scroll(&self) -> (scroll: i32)
        ensures
            scroll == self@.scroll,
    {
        self.scroll
    }

    /// Says which lines are to be drawn, and where, when the area's top left
    /// corner is at column `pos_x` and row `pos_y`. Nothing is put on the
    /// screen here: the caller draws each line at its place.
    ///
    /// Every line starts at column `pos_x`. The bottom row of the area is
    /// `pos_y + height - 1`; it must be a row that an `i32` can name.
    pub fn draw(&self, pos_x: i32, pos_y: i32) -> (placed: Vec<Placement>)
        requires
            self.wf(),
            pos_y + self@.height - 1 <= i32::MAX,
        ensures
            rows_of(placed@) == placements(
                self@.lines,
                self@.width,
                self@.last() - self@.scroll,
                pos_y + self@.height - 1,
                pos_y as int,
            ),
            forall|k: int| 0 <= k < placed@.len() ==> (#[trigger] placed@[k]).x == pos_x,
    {
        let ghost lines = self@.lines;
        let ghost width = self@.width;
        let ghost start = self@.last() - self@.scroll;
        let ghost bottom = pos_y + self@.height - 1;
        let top = pos_y as i64;
        let mut placed: Vec<Placement> = Vec::new();
        let mut row: i64 = pos_y as i64 + self.height as i64 - 1;
        let mut idx: i64 = self.lines.len() as i64 - 1 - self.scroll as i64;
        proof {
            assert(rows_of(placed@) =~= Seq::empty());
        }
        while idx > 0 && row >= top
            invariant
                self.wf(),
                lines == self@.lines,
                width == self@.width,
                top == pos_y,
                idx < self.lines@.len(),
                row <= bottom <= i32::MAX,
                rows_of(placed@) + placements(lines, width, idx as int, row as int, top as int)
                    == placements(lines, width, start, bottom, top as int),
                forall|k: int| 0 <= k < placed@.len() ==> (#[trigger] placed@[k]).x == pos_x,
            ensures
                rows_of(placed@) == placements(lines, width, start, bottom, top as int),
                forall|k: int| 0 <= k < placed@.len() ==> (#[trigger] placed@[k]).x == pos_x,
            decreases idx,
        {
            let rows = self.lines[idx as usize].rendered_height(self.width);
            let first_row = row - rows as i64 + 1;
            if first_row < top {
                proof {
                    assert(rows_of(placed@) + Seq::<(int, int)>::empty() =~= rows_of(placed@));
                }
                break ;
            }
            let ghost before = rows_of(placed@);
            placed.push(Placement { line: idx as usize, x: pos_x, y: first_row as i32 });
            proof {
                let rest = placements(lines, width, idx - 1, first_row - 1, top as int);
                assert(rows_of(placed@) =~= before + seq![(idx as int, first_row as int)]);
                assert(rows_of(placed@) + rest =~= before + (seq![
                    (idx as int, first_row as int),
                ] + rest));
            }
            row = first_row - 1;
            idx -= 1;
        }
        proof {
            assert(rows_of(placed@) + Seq::<(int, int)>::empty() =~= rows_of(placed@));
        }
        placed
    }
}

} // verus!
