//! The bounded screen of a pane: rows of glyphs, a cursor, the style in
//! force, and what the decoded control sequences do to them.

use vstd::prelude::*;
use crate::cursor::{Cursor, saturating_down, saturating_up};
use crate::glyph_string::{GlyphString, Line};
use crate::style::{PrintStyle, TerminalError};

verus! {

/// What happens to output below the last row: in `Scroll` the rows move up
/// and the top row is lost, in `Fixed` the output is dropped.
#[derive(Eq, PartialEq, Clone, Copy, Debug, Structural)]
pub enum ScrollMode {
    Scroll,
    Fixed,
}

/// What an erase sequence asks to be cleared.
#[derive(Debug)]
pub enum DeletionType {
    ClearLine,
    ClearLineToCursor,
    ClearLineAfterCursor,
    ClearScreen,
    ClearScreenToCursor,
    ClearScreenAfterCursor,
    /// An erase sequence with a parameter that has no meaning; it clears
    /// nothing.
    Unknown(String),
}

/// What an erase clears.
#[derive(Clone, Copy, Debug, PartialEq, Eq, Structural)]
pub enum Erase {
    Line,
    LineToCursor,
    LineAfterCursor,
    Screen,
    ScreenToCursor,
    ScreenAfterCursor,
    Nothing,
}

impl DeletionType {
    /// What this erase clears.
    pub open spec fn erase(self) -> Erase {
        match self {
            DeletionType::ClearLine => Erase::Line,
            DeletionType::ClearLineToCursor => Erase::LineToCursor,
            DeletionType::ClearLineAfterCursor => Erase::LineAfterCursor,
            DeletionType::ClearScreen => Erase::Screen,
            DeletionType::ClearScreenToCursor => Erase::ScreenToCursor,
            DeletionType::ClearScreenAfterCursor => Erase::ScreenAfterCursor,
            DeletionType::Unknown(_) => Erase::Nothing,
        }
    }
}

/// What a view port holds.
pub struct ViewModel {
    pub lines: Seq<Line>,
    pub style: PrintStyle,
    pub cursor: Cursor,
    pub width: u16,
    pub height: u16,
    pub scroll: ScrollMode,
}

/// What each of the rows holds.
pub open spec fn line_views(rows: Seq<GlyphString>) -> Seq<Line> {
    Seq::new(rows.len(), |i: int| rows[i]@)
}

/// The 0-based position that the 1-based screen coordinate `v` addresses on
/// an axis of `size` cells: `v - 1`, brought into `[0, size - 1]`.
pub open spec fn clamp_coord(v: int, size: u16) -> u16 {
    if v <= 1 || size == 0 {
        0
    } else if v > size {
        (size - 1) as u16
    } else {
        (v - 1) as u16
    }
}

impl ViewModel {
    /// The cursor lies on the grid or directly right of or below it.
    pub open spec fn wf(self) -> bool {
        self.cursor.wf() && self.cursor.x_max == self.width && self.cursor.y_max == self.height
    }

    /// An empty screen: no rows, the cursor at the origin, the initial
    /// style.
    pub open spec fn initial(width: u16, height: u16, scroll: ScrollMode) -> ViewModel {
        ViewModel {
            lines: Seq::empty(),
            style: PrintStyle::initial(),
            cursor: Cursor { x: 0, y: 0, x_max: width, y_max: height },
            width,
            height,
            scroll,
        }
    }

    pub open spec fn with_lines(self, lines: Seq<Line>) -> ViewModel {
        ViewModel { lines, ..self }
    }

    pub open spec fn with_cursor(self, cursor: Cursor) -> ViewModel {
        ViewModel { cursor, ..self }
    }

    /// The screen with row `index` replaced by `line`.
    pub open spec fn with_line(self, index: int, line: Line) -> ViewModel {
        ViewModel { lines: self.lines.update(index, line), ..self }
    }

    /// The screen with new rows added at the bottom until row `index`
    /// exists.
    pub open spec fn ensure_line(self, index: int) -> ViewModel {
        if index < self.lines.len() {
            self
        } else {
            self.with_lines(
                self.lines + Seq::new((index + 1 - self.lines.len()) as nat, |k: int| Line::fresh()),
            )
        }
    }

    /// The rows without the `count` topmost, or without any if there are
    /// fewer.
    pub open spec fn drop_top(self, count: int) -> ViewModel {
        self.with_lines(
            self.lines.skip(
                if count <= 0 {
                    0
                } else if count > self.lines.len() {
                    self.lines.len() as int
                } else {
                    count
                },
            ),
        )
    }

    /// The last row of the grid, 0 on a grid without rows.
    pub open spec fn last_row(self) -> u16 {
        if self.height > 0 {
            (self.height - 1) as u16
        } else {
            0
        }
    }

    /// The screen made ready for writing at the cursor.
    ///
    /// While the cursor is on the grid, rows are added until its row exists.
    /// A cursor below the last row means, in `Scroll` mode, that the rows
    /// move up: its row is added, rows leave at the top until no more than
    /// `height` are left, and the cursor goes to the last row. In `Fixed`
    /// mode its row is added beyond the grid, where nothing shows it.
    pub open spec fn focus(self) -> ViewModel {
        let y = self.cursor.y as int;
        if y < self.height || self.scroll == ScrollMode::Fixed {
            self.ensure_line(y)
        } else {
            let grown = self.ensure_line(y);
            let kept = grown.drop_top(grown.lines.len() - self.height);
            kept.with_cursor(Cursor { y: self.last_row(), ..self.cursor }).ensure_line(
                self.last_row() as int,
            )
        }
    }

    /// The row the cursor is in; the screen has to be ready for writing.
    pub open spec fn current(self) -> Line {
        self.lines[self.cursor.y as int]
    }

    /// The screen after a newline. On the grid the cursor goes to the start
    /// of the next row. Below the last row, `Scroll` mode drops the top row,
    /// adds a new one at the bottom and returns the cursor to the start of
    /// its row; `Fixed` mode changes nothing.
    pub open spec fn newline(self) -> ViewModel {
        if self.cursor.y == self.height {
            match self.scroll {
                ScrollMode::Scroll => self.drop_top(1).with_lines(
                    self.drop_top(1).lines.push(Line::fresh()),
                ).with_cursor(Cursor { x: 0, ..self.cursor }),
                ScrollMode::Fixed => self,
            }
        } else {
            self.with_cursor(
                Cursor {
                    x: 0,
                    y: saturating_up(self.cursor.y, 1, self.cursor.y_max),
                    ..self.cursor
                },
            )
        }
    }

    /// The screen with the cursor at the 1-based `row` and `col`, brought
    /// onto the grid.
    pub open spec fn cursor_goto(self, row: int, col: int) -> ViewModel {
        self.with_cursor(
            Cursor {
                x: clamp_coord(col, self.width),
                y: clamp_coord(row, self.height),
                ..self.cursor
            },
        )
    }

    pub open spec fn cursor_up(self, amount: u16) -> ViewModel {
        self.with_cursor(Cursor { y: saturating_down(self.cursor.y, amount), ..self.cursor })
    }

    /// How many rows a move down by `amount` goes beyond the row below the
    /// grid, in `Scroll` mode; 0 in `Fixed` mode.
    pub open spec fn overshoot(self, amount: u16) -> int {
        if self.scroll == ScrollMode::Scroll && self.cursor.y + amount > self.height {
            self.cursor.y + amount - self.height
        } else {
            0
        }
    }

    /// The screen after the cursor moved down: the cursor stops below the
    /// last row, and in `Scroll` mode as many rows leave at the top as the
    /// move went further.
    pub open spec fn cursor_down(self, amount: u16) -> ViewModel {
        self.drop_top(self.overshoot(amount)).with_cursor(
            Cursor {
                y: saturating_up(self.cursor.y, amount, self.cursor.y_max),
                ..self.cursor
            },
        )
    }

    pub open spec fn cursor_left(self, amount: u16) -> ViewModel {
        self.with_cursor(Cursor { x: saturating_down(self.cursor.x, amount), ..self.cursor })
    }

    pub open spec fn cursor_right(self, amount: u16) -> ViewModel {
        self.with_cursor(
            Cursor {
                x: saturating_up(self.cursor.x, amount, self.cursor.x_max),
                ..self.cursor
            },
        )
    }

    pub open spec fn cursor_home(self) -> ViewModel {
        self.with_cursor(Cursor { x: 0, ..self.cursor })
    }

    /// The rows with those from `from` up to but without `to` emptied.
    pub open spec fn clear_rows(self, from: int, to: int) -> ViewModel {
        self.with_lines(
            Seq::new(
                self.lines.len(),
                |k: int|
                    if from <= k < to {
                        self.lines[k].clear()
                    } else {
                        self.lines[k]
                    },
            ),
        )
    }

    /// The screen after an erase.
    ///
    /// An erase within the row makes the screen ready for writing at the
    /// cursor and clears the row, the part of it before the cursor, or the
    /// part from the cursor on. An erase of the screen empties every row and
    /// sends the cursor to the origin. An erase up to the cursor empties the
    /// rows above it and clears its row before it; one from the cursor on
    /// clears its row from it on and empties the rows below.
    pub open spec fn clear(self, what: Erase) -> ViewModel {
        let x = self.cursor.x as int;
        match what {
            Erase::Line => {
                let m = self.focus();
                m.with_line(m.cursor.y as int, m.current().clear())
            },
            Erase::LineToCursor => {
                let m = self.focus();
                m.with_line(m.cursor.y as int, m.current().clear_to(x))
            },
            Erase::LineAfterCursor => {
                let m = self.focus();
                m.with_line(m.cursor.y as int, m.current().clear_after(x))
            },
            Erase::Screen => self.clear_rows(0, self.lines.len() as int).cursor_goto(1, 1),
            Erase::ScreenToCursor => {
                let m = self.clear_rows(0, self.cursor.y as int).focus();
                m.with_line(m.cursor.y as int, m.current().clear_to(x))
            },
            Erase::ScreenAfterCursor => {
                let m = self.focus();
                let n = m.with_line(m.cursor.y as int, m.current().clear_after(x));
                n.clear_rows(m.cursor.y + 1, n.lines.len() as int)
            },
            Erase::Nothing => self,
        }
    }

    /// The rows that a pane of this height shows: in `Scroll` mode the last
    /// `height` rows, in `Fixed` mode the first.
    pub open spec fn visible(self) -> ViewModel {
        match self.scroll {
            ScrollMode::Scroll => self.drop_top(self.lines.len() - self.height),
            ScrollMode::Fixed => self.with_lines(
                if self.lines.len() > self.height {
                    self.lines.take(self.height as int)
                } else {
                    self.lines
                },
            ),
        }
    }
}

pub struct ViewPort {
    pane_id: String,
    visible_lines: Vec<GlyphString>,
    cur_style: PrintStyle,
    scroll_mode: ScrollMode,
    width: u16,
    height: u16,
    cursor: Cursor,
}

impl View for ViewPort {
    type V = ViewModel;

    closed spec fn view(&self) -> ViewModel {
        ViewModel {
            lines: line_views(self.visible_lines@),
            style: self.cur_style,
            cursor: self.cursor,
            width: self.width,
            height: self.height,
            scroll: self.scroll_mode,
        }
    }
}

impl ViewPort {
    /// The name of the pane that the view port belongs to.
    pub closed spec fn id(&self) -> Seq<char> {
        self.pane_id@
    }

    /// An empty screen of the given size for the pane `pane_id`.
    pub fn new(pane_id: String, width: u16, height: u16, scroll_mode: ScrollMode) -> (v: ViewPort)
        ensures
            v@ == ViewModel::initial(width, height, scroll_mode),
            v@.wf(),
            v.id() == pane_id@,
    {
        let v = ViewPort {
            pane_id,
            visible_lines: Vec::new(),
            cur_style: PrintStyle::default(),
            cursor: Cursor::new(width, height),
            scroll_mode,
            width,
            height,
        };
        assert(v@.lines =~= Seq::empty());
        v
    }

    pub fn width(&self) -> (w: u16)
        ensures
            w == self@.width,
    {
        self.width
    }

    pub fn height(&self) -> (h: u16)
        ensures
            h == self@.height,
    {
        self.height
    }

    /// Says what is to happen to output below the last row from now on.
    pub fn set_scroll_mode(&mut self, mode: ScrollMode)
        ensures
            final(self)@ == (ViewModel { scroll: mode, ..old(self)@ }),
            final(self).id() == old(self).id(),
    {
        self.scroll_mode = mode;
    }

    /// The style in force.
    pub fn style(&self) -> (s: PrintStyle)
        ensures
            s == self@.style,
    {
        self.cur_style
    }

    /// Applies the SGR sequence `vt100` to the style in force. Where it
    /// cannot be applied the style stays as it was.
    pub fn apply_style(&mut self, vt100: &str) -> (r: Result<(), TerminalError>)
        ensures
            match old(self)@.style.apply_sgr(vt100@) {
                Some(style) => r is Ok && final(self)@ == (ViewModel { style, ..old(self)@ }),
                None => r == Err::<(), TerminalError>(TerminalError::MalformedEscape) && final(self)@
                    == old(self)@,
            },
            final(self).id() == old(self).id(),
    {
        self.cur_style.apply_vt100(vt100)
    }

    /// Erases what `deletion_type` names, see [`ViewModel::clear`].
    pub fn clear(&mut self, deletion_type: DeletionType)
        requires
            old(self)@.wf(),
        ensures
            final(self)@ == old(self)@.clear(deletion_type.erase()),
            final(self)@.wf(),
            final(self).id() == old(self).id(),
    {
        let x_idx = self.cursor.x() as usize;
        let y_idx = self.cursor.y() as usize;
        match deletion_type {
            DeletionType::ClearLine => {
                self.cur_line().clear();
            },
            DeletionType::ClearLineToCursor => {
                self.cur_line().clear_to(x_idx);
            },
            DeletionType::ClearLineAfterCursor => {
                self.cur_line().clear_after(x_idx);
            },
            DeletionType::ClearScreen => {
                let n = self.visible_lines.len();
                self.clear_lines(0, n);
                self.cursor_goto(1, 1);
            },
            DeletionType::ClearScreenToCursor => {
                self.clear_lines(0, y_idx);
                self.cur_line().clear_to(x_idx);
            },
            DeletionType::ClearScreenAfterCursor => {
                self.cur_line().clear_after(x_idx);
                let from = self.cursor.y() as usize + 1;
                let n = self.visible_lines.len();
                self.clear_lines(from, n);
            },
            DeletionType::Unknown(_) => {},
        }
    }

    /// Empties the rows from `from` up to but without `to`, as far as they
    /// exist.
    fn clear_lines(&mut self, from: usize, to: usize)
        ensures
            final(self)@ == old(self)@.clear_rows(from as int, to as int),
            final(self).id() == old(self).id(),
    {
        let n = self.visible_lines.len();
        let end = if to < n { to } else { n };
        let mut i: usize = from;
        assert(self@.lines =~= old(self)@.clear_rows(from as int, from as int).lines);
        while i < end
            invariant
                from <= i,
                i <= end || i == from,
                end <= n,
                n == self.visible_lines.len(),
                n == old(self)@.lines.len(),
                self.id() == old(self).id(),
                self@ == old(self)@.clear_rows(from as int, i as int),
            decreases end - i,
        {
            let ghost prev = self.visible_lines@;
            assert(line_views(prev)[i as int] == prev[i as int]@);
            self.visible_lines[i].clear();
            assert(self.visible_lines@[i as int]@ == prev[i as int]@.clear());
            assert forall|k: int| 0 <= k < n && k != i implies self.visible_lines@[k] == prev[k] by {}
            i += 1;
            assert forall|k: int| 0 <= k < n implies #[trigger] self@.lines[k] == old(
                self,
            )@.clear_rows(from as int, i as int).lines[k] by {
                assert(line_views(prev)[k] == prev[k]@);
            }
            assert(self@.lines =~= old(self)@.clear_rows(from as int, i as int).lines);
        }
        assert(self@.lines =~= old(self)@.clear_rows(from as int, to as int).lines);
    }

    /// Brings the rows down to what the pane shows, see
    /// [`ViewModel::visible`], and hands them out.
    pub fn take_visible_lines(&mut self) -> (rows: &mut Vec<GlyphString>)
        ensures
            line_views(rows@) == old(self)@.visible().lines,
            rows.len() <= old(self)@.height,
            final(self)@ == old(self)@.with_lines(line_views(final(rows)@)),
            final(self).id() == old(self).id(),
    {
        self.trim();
        &mut self.visible_lines
    }

    /// Brings the rows down to what the pane shows.
    pub fn trim(&mut self)
        ensures
            final(self)@ == old(self)@.visible(),
            final(self)@.lines.len() <= old(self)@.height,
            final(self).id() == old(self).id(),
    {
        let h = self.height as usize;
        match self.scroll_mode {
            ScrollMode::Scroll => {
                let n = self.visible_lines.len();
                if n > h {
                    self.remove_top(n - h);
                }
                assert(self@.lines =~= old(self)@.visible().lines);
            },
            ScrollMode::Fixed => {
                self.visible_lines.truncate(h);
                assert(self@.lines =~= old(self)@.visible().lines);
            },
        }
    }

    /// Removes the `count` topmost rows, or all if there are fewer.
    fn remove_top(&mut self, count: usize)
        ensures
            final(self)@ == old(self)@.drop_top(count as int),
            final(self).id() == old(self).id(),
    {
        let n = self.visible_lines.len();
        let k = if count < n { count } else { n };
        let mut i: usize = 0;
        while i < k
            invariant
                i <= k <= n,
                n == old(self).visible_lines.len(),
                self.visible_lines@ == old(self).visible_lines@.skip(i as int),
                self.cur_style == old(self).cur_style,
                self.cursor == old(self).cursor,
                self.width == old(self).width,
                self.height == old(self).height,
                self.scroll_mode == old(self).scroll_mode,
                self.pane_id == old(self).pane_id,
            decreases k - i,
        {
            self.visible_lines.remove(0);
            i += 1;
            assert(self.visible_lines@ =~= old(self).visible_lines@.skip(i as int));
        }
        assert(self@.lines =~= old(self)@.drop_top(count as int).lines);
    }

    pub fn cursor(&self) -> (c: &Cursor)
        ensures
            *c == self@.cursor,
    {
        &self.cursor
    }

    /// Begins a new line, see [`ViewModel::newline`].
    pub fn newline(&mut self)
        requires
            old(self)@.wf(),
        ensures
            final(self)@ == old(self)@.newline(),
            final(self)@.wf(),
            final(self).id() == old(self).id(),
    {
        if self.cursor.y() == self.height {
            match self.scroll_mode {
                ScrollMode::Scroll => {
                    self.remove_top(1);
                    self.visible_lines.push(GlyphString::new());
                    self.cursor.set_x(0);
                    assert(self@.lines =~= old(self)@.newline().lines);
                },
                ScrollMode::Fixed => {},
            }
        } else {
            self.cursor.set_x(0);
            self.cursor.incr_y(1);
        }
    }

    /// Makes the screen ready for writing at the cursor, see
    /// [`ViewModel::focus`], and hands out the cursor's row.
    pub fn cur_line(&mut self) -> (line: &mut GlyphString)
        requires
            old(self)@.wf(),
        ensures
            line@ == old(self)@.focus().current(),
            0 <= old(self)@.focus().cursor.y < old(self)@.focus().lines.len(),
            final(self)@ == old(self)@.focus().with_line(
                old(self)@.focus().cursor.y as int,
                final(line)@,
            ),
            final(self)@.wf(),
            final(self).id() == old(self).id(),
    {
        let y = self.cursor.y();
        if y >= self.height && self.scroll_mode == ScrollMode::Scroll {
            self.add_lines(y);
            let n = self.visible_lines.len();
            let h = self.height as usize;
            if n > h {
                self.remove_top(n - h);
            }
            let row: u16 = if self.height > 0 { self.height - 1 } else { 0 };
            self.cursor.set_y(row);
        }
        let at = self.cursor.y();
        self.mut_line(at)
    }

    /// Adds rows at the bottom until row `index` exists.
    fn add_lines(&mut self, index: u16)
        ensures
            final(self)@ == old(self)@.ensure_line(index as int),
            final(self).visible_lines.len() > index,
            final(self).id() == old(self).id(),
    {
        let n = self.visible_lines.len();
        while self.visible_lines.len() <= index as usize
            invariant
                n == old(self).visible_lines.len(),
                n <= self.visible_lines.len(),
                self.visible_lines.len() <= index + 1 || self.visible_lines.len() == n,
                self.visible_lines@.take(n as int) == old(self).visible_lines@,
                forall|k: int|
                    n <= k < self.visible_lines.len() ==> (#[trigger] self.visible_lines@[k])@
                        == Line::fresh(),
                self.cur_style == old(self).cur_style,
                self.cursor == old(self).cursor,
                self.width == old(self).width,
                self.height == old(self).height,
                self.scroll_mode == old(self).scroll_mode,
                self.pane_id == old(self).pane_id,
            decreases index + 1 - self.visible_lines.len(),
        {
            let ghost before = self.visible_lines@;
            self.visible_lines.push(GlyphString::new());
            assert(self.visible_lines@.take(n as int) =~= before.take(n as int));
        }
        proof {
            assert(self.visible_lines@.take(n as int) =~= old(self).visible_lines@);
            assert forall|k: int| 0 <= k < n implies self.visible_lines@[k] == old(
                self,
            ).visible_lines@[k] by {
                assert(self.visible_lines@.take(n as int)[k] == self.visible_lines@[k]);
            }
            assert(self@.lines =~= old(self)@.ensure_line(index as int).lines);
        }
    }

    /// Adds rows at the bottom until row `index` exists, and hands that row
    /// out.
    pub fn mut_line(&mut self, index: u16) -> (line: &mut GlyphString)
        ensures
            line@ == old(self)@.ensure_line(index as int).lines[index as int],
            final(self)@ == old(self)@.ensure_line(index as int).with_line(
                index as int,
                final(line)@,
            ),
            final(self).id() == old(self).id(),
    {
        self.add_lines(index);
        assert forall|l: GlyphString| #[trigger]
            line_views(self.visible_lines@.update(index as int, l)) == line_views(
                self.visible_lines@,
            ).update(index as int, l@) by {
            assert(line_views(self.visible_lines@.update(index as int, l)) =~= line_views(
                self.visible_lines@,
            ).update(index as int, l@));
        }
        &mut self.visible_lines[index as usize]
    }

    /// Takes row `index` out of the screen.
    pub fn remove(&mut self, index: usize) -> (line: GlyphString)
        requires
            index < old(self)@.lines.len(),
        ensures
            line@ == old(self)@.lines[index as int],
            final(self)@ == old(self)@.with_lines(old(self)@.lines.remove(index as int)),
            final(self).id() == old(self).id(),
    {
        let line = self.visible_lines.remove(index);
        assert(self@.lines =~= old(self)@.lines.remove(index as int));
        line
    }

    /// Sends the cursor to the 1-based `row` and `col`, brought onto the grid.
    pub fn cursor_goto(&mut self, row: i32, col: i32)
        requires
            old(self)@.wf(),
        ensures
            final(self)@ == old(self)@.cursor_goto(row as int, col as int),
            final(self)@.wf(),
            final(self).id() == old(self).id(),
    {
        let x = clamp_to_axis(col, self.width);
        let y = clamp_to_axis(row, self.height);
        self.cursor.set_x(x);
        self.cursor.set_y(y);
    }

    /// Moves the cursor up by `amount` rows, not beyond the first.
    pub fn cursor_up(&mut self, amount: u16)
        requires
            old(self)@.wf(),
        ensures
            final(self)@ == old(self)@.cursor_up(amount),
            final(self)@.wf(),
            final(self).id() == old(self).id(),
    {
        self.cursor.decr_y(amount);
    }

    /// Moves the cursor down by `amount` rows, see [`ViewModel::cursor_down`].
    pub fn cursor_down(&mut self, amount: u16)
        requires
            old(self)@.wf(),
        ensures
            final(self)@ == old(self)@.cursor_down(amount),
            final(self)@.wf(),
            final(self).id() == old(self).id(),
    {
        let final_row: u32 = self.cursor.y() as u32 + amount as u32;
        self.cursor.incr_y(amount);
        if self.scroll_mode == ScrollMode::Scroll && final_row > self.height as u32 {
            self.remove_top((final_row - self.height as u32) as usize);
        } else {
            assert(self@.lines =~= old(self)@.drop_top(0).lines);
        }
    }

    /// Moves the cursor left by `amount` columns, not beyond the first.
    pub fn cursor_left(&mut self, amount: u16)
        requires
            old(self)@.wf(),
        ensures
            final(self)@ == old(self)@.cursor_left(amount),
            final(self)@.wf(),
            final(self).id() == old(self).id(),
    {
        self.cursor.decr_x(amount)
    }

    /// Moves the cursor right by `amount` columns, not beyond the column
    /// behind the last.
    pub fn cursor_right(&mut self, amount: u16)
        requires
            old(self)@.wf(),
        ensures
            final(self)@ == old(self)@.cursor_right(amount),
            final(self)@.wf(),
            final(self).id() == old(self).id(),
    {
        self.cursor.incr_x(amount)
    }

    /// Sends the cursor to the start of its row.
    pub fn cursor_home(&mut self)
        requires
            old(self)@.wf(),
        ensures
            final(self)@ == old(self)@.cursor_home(),
            final(self)@.wf(),
            final(self).id() == old(self).id(),
    {
        self.cursor.set_x(0)
    }

    /// The cursor's column and row on the screen, counted from 1.
    pub fn cursor_loc(&self) -> (loc: (i32, i32))
        ensures
            loc.0 == self@.cursor.x + 1,
            loc.1 == self@.cursor.y + 1,
    {
        (self.cursor.col(), self.cursor.row())
    }
}

/// The position on an axis of `size` cells that the 1-based coordinate `v`
/// addresses, see [`clamp_coord`].
fn clamp_to_axis(v: i32, size: u16) -> (r: u16)
    ensures
        r == clamp_coord(v as int, size),
{
    if v <= 1 || size == 0 {
        0
    } else if v > size as i32 {
        size - 1
    } else {
        (v - 1) as u16
    }
}

} // verus!
