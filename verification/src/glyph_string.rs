//! One row of the grid: a run of styled glyphs with a dirty flag on each
//! glyph and one on the row.

use vstd::prelude::*;
use vstd::utf8::encode_utf8;
use crate::style::{PrintStyle, TerminalError};
use crate::text::{ESC, chars_of, decimal, push_decimal, string_of};

verus! {

/// A visible cell: a character, the style it was written in, and whether it
/// still has to be drawn.
#[derive(Copy, Clone, Debug, PartialEq, Eq, Structural)]
pub struct Glyph {
    pub c: char,
    pub style: PrintStyle,
    pub dirty: bool,
}

/// Whether a character takes up a column of its own: its low byte lies in
/// `0x20..0x7E`.
pub open spec fn is_fill_char(c: char) -> bool {
    0x20 <= (c as u32) % 256 && (c as u32) % 256 < 0x7E
}

impl Glyph {
    /// The glyph that writing `c` in style `style` leaves: it is dirty.
    pub open spec fn written(c: char, style: PrintStyle) -> Glyph {
        Glyph { c, style, dirty: true }
    }

    /// A space in the initial style, as left by clearing a cell.
    pub open spec fn blank() -> Glyph {
        Glyph::written(' ', PrintStyle::initial())
    }

    /// This glyph once it has been drawn.
    pub open spec fn drawn(self) -> Glyph {
        Glyph { dirty: false, ..self }
    }

    /// A glyph as writing `c` in style `state` leaves it: dirty.
    pub fn new(c: char, state: PrintStyle) -> (g: Glyph)
        ensures
            g == Glyph::written(c, state),
    {
        Glyph { c, style: state, dirty: true }
    }

    /// Whether the glyph's character takes up a column of its own.
    pub fn is_fill(&self) -> (r: bool)
        ensures
            r == is_fill_char(self.c),
    {
        let low: u32 = (self.c as u32) % 256;
        0x20 <= low && low < 0x7E
    }
}

impl Default for Glyph {
    fn default() -> (g: Glyph)
        ensures
            g == Glyph::blank(),
    {
        Glyph::new(' ', PrintStyle::default())
    }
}

/// What a row holds: its glyphs from the left, and the row's own dirty flag.
pub struct Line {
    pub glyphs: Seq<Glyph>,
    pub dirty: bool,
}

/// The sequence that places the host cursor: `ESC [ row ; col H`.
pub open spec fn cursor_to(row: nat, col: nat) -> Seq<char> {
    seq![ESC, '['] + decimal(row) + seq![';'] + decimal(col) + seq!['H']
}

/// `n` spaces.
pub open spec fn spaces(n: nat) -> Seq<char> {
    Seq::new(n, |i: int| ' ')
}

/// The style in force behind the glyphs `glyphs`, when it was `start` before
/// them.
pub open spec fn style_after(glyphs: Seq<Glyph>, start: PrintStyle) -> PrintStyle {
    if glyphs.len() == 0 {
        start
    } else {
        glyphs.last().style
    }
}

/// The characters of `glyphs`, with the change of style written before each
/// glyph whose style is not the one in force, which is `start` at first.
pub open spec fn run_text(glyphs: Seq<Glyph>, start: PrintStyle) -> Seq<char>
    decreases glyphs.len(),
{
    if glyphs.len() == 0 {
        Seq::empty()
    } else {
        let before = glyphs.drop_last();
        run_text(before, start) + style_after(before, start).diff_text(glyphs.last().style)
            + seq![glyphs.last().c]
    }
}

/// How many of `glyphs` take up a column of their own.
pub open spec fn count_fill(glyphs: Seq<Glyph>) -> nat
    decreases glyphs.len(),
{
    if glyphs.len() == 0 {
        0
    } else {
        count_fill(glyphs.drop_last()) + if is_fill_char(glyphs.last().c) {
            1nat
        } else {
            0nat
        }
    }
}

/// Appends the sequence that places the host cursor at `row` and `col` to
/// `out`.
pub fn push_cursor_to(out: &mut Vec<char>, row: u32, col: u32)
    ensures
        final(out)@ == old(out)@ + cursor_to(row as nat, col as nat),
{
    out.push(ESC);
    out.push('[');
    push_decimal(out, row);
    out.push(';');
    push_decimal(out, col);
    out.push('H');
    assert(out@ =~= old(out)@ + cursor_to(row as nat, col as nat));
}

/// Appends `n` spaces to `out`.
pub fn push_spaces(out: &mut Vec<char>, n: usize)
    ensures
        final(out)@ == old(out)@ + spaces(n as nat),
{
    let mut i: usize = 0;
    assert(out@ =~= old(out)@ + spaces(0));
    while i < n
        invariant
            i <= n,
            out@ == old(out)@ + spaces(i as nat),
        decreases n - i,
    {
        out.push(' ');
        i += 1;
        assert(out@ =~= old(out)@ + spaces(i as nat));
    }
}

impl Line {
    /// A new row: no glyphs, and dirty.
    pub open spec fn fresh() -> Line {
        Line { glyphs: Seq::empty(), dirty: true }
    }

    pub open spec fn len(self) -> nat {
        self.glyphs.len()
    }

    /// The style of the last glyph, the initial style on an empty row.
    pub open spec fn last_style(self) -> PrintStyle {
        style_after(self.glyphs, PrintStyle::initial())
    }

    /// The style of the first glyph, the initial style on an empty row.
    pub open spec fn first_style(self) -> PrintStyle {
        if self.glyphs.len() == 0 {
            PrintStyle::initial()
        } else {
            self.glyphs[0].style
        }
    }

    /// The row has to be drawn: its flag is set or one of its glyphs is
    /// dirty.
    pub open spec fn is_dirty(self) -> bool {
        self.dirty || exists|i: int| 0 <= i < self.glyphs.len() && (#[trigger] self.glyphs[i]).dirty
    }

    /// The row with its flag set.
    pub open spec fn marked(self) -> Line {
        Line { dirty: true, ..self }
    }

    /// The spaces that fill a row up to position `i`: they take the style of
    /// the row's last glyph.
    pub open spec fn padding(self, i: int) -> Seq<Glyph> {
        Seq::new((i - self.glyphs.len()) as nat, |k: int| Glyph::written(' ', self.last_style()))
    }

    /// The row after `c` was written at position `i` in style `style`. A row
    /// that is too short is first filled up with spaces.
    pub open spec fn set(self, i: int, c: char, style: PrintStyle) -> Line {
        if i < self.glyphs.len() {
            Line { glyphs: self.glyphs.update(i, Glyph::written(c, style)), dirty: true }
        } else {
            Line {
                glyphs: (self.glyphs + self.padding(i)).push(Glyph::written(c, style)),
                dirty: true,
            }
        }
    }

    /// The row after the characters `s` were appended in style `style`.
    pub open spec fn push(self, s: Seq<char>, style: PrintStyle) -> Line {
        Line {
            glyphs: self.glyphs + Seq::new(s.len(), |k: int| Glyph::written(s[k], style)),
            dirty: self.dirty || s.len() > 0,
        }
    }

    /// The row with blanks at the positions before `i`.
    pub open spec fn clear_to(self, i: int) -> Line {
        if i <= 0 {
            self
        } else {
            Line {
                glyphs: Seq::new(
                    if i > self.glyphs.len() {
                        i as nat
                    } else {
                        self.glyphs.len()
                    },
                    |k: int|
                        if k < i {
                            Glyph::blank()
                        } else {
                            self.glyphs[k]
                        },
                ),
                dirty: true,
            }
        }
    }

    /// The row with a blank at position `i`.
    pub open spec fn clear_at(self, i: int) -> Line {
        self.set(i, ' ', PrintStyle::initial())
    }

    /// The row with blanks from position `i` to its end.
    pub open spec fn clear_after(self, i: int) -> Line {
        if i >= self.glyphs.len() {
            self
        } else {
            Line {
                glyphs: Seq::new(
                    self.glyphs.len(),
                    |k: int|
                        if k >= i {
                            Glyph::blank()
                        } else {
                            self.glyphs[k]
                        },
                ),
                dirty: true,
            }
        }
    }

    /// The row without any glyph.
    pub open spec fn clear(self) -> Line {
        Line { glyphs: Seq::empty(), dirty: true }
    }

    /// The row without its first `i` glyphs.
    pub open spec fn delete_to(self, i: int) -> Line {
        Line {
            glyphs: self.glyphs.skip(
                if i > self.glyphs.len() {
                    self.glyphs.len() as int
                } else {
                    i
                },
            ),
            dirty: true,
        }
    }

    /// The row without the glyph at position `i`, if there is one.
    pub open spec fn delete_at(self, i: int) -> Line {
        if i < self.glyphs.len() {
            Line { glyphs: self.glyphs.remove(i), dirty: true }
        } else {
            self
        }
    }

    /// The characters of the row.
    pub open spec fn plaintext(self) -> Seq<char> {
        Seq::new(self.glyphs.len(), |k: int| self.glyphs[k].c)
    }

    /// How many glyphs of the row are drawn in a pane of `width` columns.
    pub open spec fn shown(self, width: nat) -> nat {
        if self.glyphs.len() < width {
            self.glyphs.len()
        } else {
            width
        }
    }

    /// What drawing the row at `(col, row)` of the host terminal writes: the
    /// cursor position, the change from `surrounding` to the first glyph's
    /// style, the first `width` glyphs with their changes of style, the
    /// change back to `surrounding`, and spaces up to `width` columns.
    pub open spec fn emit_text(self, col: nat, row: nat, width: nat, surrounding: PrintStyle) -> Seq<
        char,
    > {
        let shown = self.glyphs.take(self.shown(width) as int);
        cursor_to(row, col) + surrounding.diff_text(self.first_style()) + run_text(
            shown,
            self.first_style(),
        ) + style_after(shown, self.first_style()).diff_text(surrounding) + spaces(
            (width - self.shown(width)) as nat,
        )
    }

    /// The row once it has been drawn in a pane of `width` columns: the
    /// glyphs that were drawn are clean, and so is the row's flag.
    pub open spec fn emitted(self, width: nat) -> Line {
        Line {
            glyphs: Seq::new(
                self.glyphs.len(),
                |k: int|
                    if k < width {
                        self.glyphs[k].drawn()
                    } else {
                        self.glyphs[k]
                    },
            ),
            dirty: false,
        }
    }
}

/// A row of glyphs.
#[derive(Clone, Debug)]
pub struct GlyphString {
    glyphs: Vec<Glyph>,
    dirty: bool,
}

impl View for GlyphString {
    type V = Line;

    closed spec fn view(&self) -> Line {
        Line { glyphs: self.glyphs@, dirty: self.dirty }
    }
}

impl GlyphString {
    /// A new row: no glyphs, and dirty.
    pub fn new() -> (g: GlyphString)
        ensures
            g@ == Line::fresh(),
    {
        GlyphString { glyphs: Vec::new(), dirty: true }
    }

    /// The style of the last glyph, the initial style on an empty row.
    pub fn last_style(&self) -> (s: PrintStyle)
        ensures
            s == self@.last_style(),
    {
        let n = self.glyphs.len();
        if n == 0 {
            PrintStyle::default()
        } else {
            self.glyphs[n - 1].style
        }
    }

    /// Whether the row has to be drawn: its flag is set or one of its glyphs is
    /// dirty.
    pub fn dirty(&self) -> (r: bool)
        ensures
            r == self@.is_dirty(),
    {
        if self.dirty {
            return true;
        }
        let mut i: usize = 0;
        while i < self.glyphs.len()
            invariant
                i <= self.glyphs.len(),
                !self.dirty,
                forall|k: int| 0 <= k < i ==> !(#[trigger] self.glyphs@[k]).dirty,
            decreases self.glyphs.len() - i,
        {
            if self.glyphs[i].dirty {
                return true;
            }
            i += 1;
        }
        false
    }

    /// Whether the row shows nothing: it has fewer than two glyphs, or
    /// spaces only.
    pub fn empty(&self) -> (r: bool)
        ensures
            r == (self@.glyphs.len() < 2 || forall|k: int|
                0 <= k < self@.glyphs.len() ==> (#[trigger] self@.glyphs[k]).c == ' '),
    {
        if self.glyphs.len() < 2 {
            return true;
        }
        let mut i: usize = 0;
        while i < self.glyphs.len()
            invariant
                i <= self.glyphs.len(),
                self.glyphs.len() >= 2,
                forall|k: int| 0 <= k < i ==> (#[trigger] self.glyphs@[k]).c == ' ',
            decreases self.glyphs.len() - i,
        {
            if self.glyphs[i].c != ' ' {
                assert(self@.glyphs[i as int].c != ' ');
                return false;
            }
            i += 1;
        }
        true
    }

    /// Sets the flag of the row.
    pub fn make_dirty(&mut self)
        ensures
            final(self)@ == old(self)@.marked(),
    {
        self.dirty = true;
    }

    /// Writes `c` at position `index` in style `style`. A row that is too
    /// short is first filled up with spaces in the style of its last glyph.
    pub fn set(&mut self, index: usize, c: char, style: &PrintStyle)
        ensures
            final(self)@ == old(self)@.set(index as int, c, *style),
    {
        let n = self.glyphs.len();
        if index < n {
            self.glyphs[index] = Glyph::new(c, *style);
        } else {
            let pad = self.last_style();
            let mut i: usize = n;
            while i < index
                invariant
                    n <= i <= index,
                    n == old(self).glyphs.len(),
                    self.dirty == old(self).dirty,
                    pad == old(self)@.last_style(),
                    self.glyphs@ == old(self).glyphs@ + old(self)@.padding(i as int),
                decreases index - i,
            {
                self.glyphs.push(Glyph::new(' ', pad));
                i += 1;
                assert(self.glyphs@ =~= old(self).glyphs@ + old(self)@.padding(i as int));
            }
            self.glyphs.push(Glyph::new(c, *style));
        }
        self.dirty = true;
    }

    /// Appends the characters of `s` in style `style`.
    pub fn push(&mut self, s: &str, style: &PrintStyle)
        ensures
            final(self)@ == old(self)@.push(s@, *style),
    {
        let chars = chars_of(s);
        let mut i: usize = 0;
        while i < chars.len()
            invariant
                i <= chars.len(),
                chars@ == s@,
                self@ == old(self)@.push(s@.take(i as int), *style),
            decreases chars.len() - i,
        {
            let ghost before = self@;
            self.glyphs.push(Glyph::new(chars[i], *style));
            self.dirty = true;
            i += 1;
            assert(self@.glyphs =~= old(self)@.push(s@.take(i as int), *style).glyphs);
        }
        assert(s@.take(chars.len() as int) =~= s@);
    }

    /// Puts blanks at the positions before `idx`, and makes the row that long
    /// if it is shorter.
    pub fn clear_to(&mut self, idx: usize)
        ensures
            final(self)@ == old(self)@.clear_to(idx as int),
    {
        let mut i: usize = 0;
        while i < idx
            invariant
                i <= idx,
                self@ == old(self)@.clear_to(i as int),
            decreases idx - i,
        {
            if i < self.glyphs.len() {
                self.glyphs[i] = Glyph::default();
            } else {
                self.glyphs.push(Glyph::default());
            }
            self.dirty = true;
            i += 1;
            assert(self@.glyphs =~= old(self)@.clear_to(i as int).glyphs);
        }
    }

    /// Puts a blank at position `idx`.
    pub fn clear_at(&mut self, idx: usize)
        ensures
            final(self)@ == old(self)@.clear_at(idx as int),
    {
        let style = PrintStyle::default();
        self.set(idx, ' ', &style);
    }

    /// Removes the first `idx` glyphs, or all if there are fewer.
    pub fn delete_to(&mut self, idx: usize)
        ensures
            final(self)@ == old(self)@.delete_to(idx as int),
    {
        let n = self.glyphs.len();
        let start = if idx < n { idx } else { n };
        let mut rest: Vec<Glyph> = Vec::new();
        let mut i: usize = start;
        while i < n
            invariant
                start <= i <= n,
                n == self.glyphs.len(),
                rest@ == self.glyphs@.subrange(start as int, i as int),
            decreases n - i,
        {
            rest.push(self.glyphs[i]);
            i += 1;
        }
        assert(rest@ =~= self.glyphs@.skip(start as int));
        self.glyphs = rest;
        self.dirty = true;
    }

    /// Removes the glyph at position `idx`, if there is one.
    pub fn delete_at(&mut self, idx: usize)
        ensures
            final(self)@ == old(self)@.delete_at(idx as int),
    {
        if idx < self.glyphs.len() {
            self.glyphs.remove(idx);
            self.dirty = true;
        }
    }

    /// Puts blanks from position `idx` to the end of the row.
    pub fn clear_after(&mut self, idx: usize)
        ensures
            final(self)@ == old(self)@.clear_after(idx as int),
    {
        let n = self.glyphs.len();
        let mut i: usize = idx;
        while i < n
            invariant
                idx <= i,
                i <= n || i == idx,
                n == self.glyphs.len(),
                n == old(self).glyphs.len(),
                i == idx ==> self@ == old(self)@,
                i > idx ==> self@.dirty && self@.glyphs == Seq::new(
                    n as nat,
                    |k: int|
                        if idx <= k < i {
                            Glyph::blank()
                        } else {
                            old(self)@.glyphs[k]
                        },
                ),
            decreases n - i,
        {
            self.glyphs[i] = Glyph::default();
            self.dirty = true;
            i += 1;
            assert(self@.glyphs =~= Seq::new(
                n as nat,
                |k: int|
                    if idx <= k < i {
                        Glyph::blank()
                    } else {
                        old(self)@.glyphs[k]
                    },
            ));
        }
        proof {
            if idx < n {
                assert(self@.glyphs =~= old(self)@.clear_after(idx as int).glyphs);
            }
        }
    }

    /// Removes every glyph.
    pub fn clear(&mut self)
        ensures
            final(self)@ == old(self)@.clear(),
    {
        self.glyphs.clear();
        self.dirty = true;
    }

    /// Draws the row at column `x_offset`, row `y_offset` of the host
    /// terminal, `width` columns wide, and appends what that takes to
    /// `target` as UTF-8. Never fails.
    pub fn write(
        &mut self,
        x_offset: u16,
        y_offset: u16,
        width: u16,
        style: &PrintStyle,
        target: &mut Vec<u8>,
    ) -> (r: Result<(), TerminalError>)
        ensures
            r is Ok,
            final(self)@ == old(self)@.emitted(width as nat),
            final(target)@ == old(target)@ + encode_utf8(
                old(self)@.emit_text(x_offset as nat, y_offset as nat, width as nat, *style),
            ),
    {
        let mut buf: Vec<char> = Vec::new();
        self.emit(x_offset as u32, y_offset as u32, width, style, &mut buf);
        let text = string_of(&buf);
        target.extend_from_slice(text.as_str().as_bytes());
        Ok(())
    }

    /// Draws the row as `write` does, and appends the characters to `out`.
    pub fn emit(&mut self, col: u32, row: u32, width: u16, style: &PrintStyle, out: &mut Vec<char>)
        ensures
            final(self)@ == old(self)@.emitted(width as nat),
            final(out)@ == old(out)@ + old(self)@.emit_text(
                col as nat,
                row as nat,
                width as nat,
                *style,
            ),
    {
        let ghost line = self@;
        let ghost start = out@;
        let first = if self.glyphs.len() == 0 {
            PrintStyle::default()
        } else {
            self.glyphs[0].style
        };
        let n = self.glyphs.len();
        let shown: usize = if n < width as usize { n } else { width as usize };
        let ghost drawn = line.glyphs.take(shown as int);
        push_cursor_to(out, row, col);
        let ghost s1 = out@;
        style.push_diff(&first, out);
        let ghost s2 = out@;
        let running = self.str_with_width(width as usize, out);
        let ghost s3 = out@;
        running.push_diff(style, out);
        let ghost s4 = out@;
        push_spaces(out, width as usize - shown);
        self.dirty = false;
        proof {
            assert(s1 == start + cursor_to(row as nat, col as nat));
            assert(s2 == s1 + style.diff_text(first));
            assert(s3 == s2 + run_text(drawn, first));
            assert(s4 == s3 + running.diff_text(*style));
            assert(out@ == s4 + spaces((width - shown) as nat));
            assert(out@ =~= start + line.emit_text(col as nat, row as nat, width as nat, *style));
        }
    }

    /// Appends the first `width` glyphs to `out`, with a change of style
    /// before each glyph that needs one, and marks them as drawn. Returns
    /// the style in force behind them.
    pub fn str_with_width(&mut self, width: usize, out: &mut Vec<char>) -> (running: PrintStyle)
        ensures
            final(self)@ == (Line { dirty: old(self)@.dirty, ..old(self)@.emitted(width as nat) }),
            final(out)@ == old(out)@ + run_text(
                old(self)@.glyphs.take(old(self)@.shown(width as nat) as int),
                old(self)@.first_style(),
            ),
            running == style_after(
                old(self)@.glyphs.take(old(self)@.shown(width as nat) as int),
                old(self)@.first_style(),
            ),
    {
        let n = self.glyphs.len();
        let shown: usize = if n < width { n } else { width };
        let first = if n == 0 {
            PrintStyle::default()
        } else {
            self.glyphs[0].style
        };
        let mut running = first;
        let mut i: usize = 0;
        while i < shown
            invariant
                i <= shown <= n,
                n == self.glyphs.len(),
                n == old(self).glyphs.len(),
                shown == old(self)@.shown(width as nat),
                self.dirty == old(self).dirty,
                first == old(self)@.first_style(),
                running == style_after(old(self)@.glyphs.take(i as int), first),
                out@ == old(out)@ + run_text(old(self)@.glyphs.take(i as int), first),
                self.glyphs@ == Seq::new(
                    n as nat,
                    |k: int|
                        if k < i {
                            old(self)@.glyphs[k].drawn()
                        } else {
                            old(self)@.glyphs[k]
                        },
                ),
            decreases shown - i,
        {
            let mut g = self.glyphs[i];
            assert(g == old(self)@.glyphs[i as int]);
            running.push_diff(&g.style, out);
            out.push(g.c);
            running = g.style;
            g.dirty = false;
            self.glyphs[i] = g;
            i += 1;
            proof {
                let next = old(self)@.glyphs.take(i as int);
                assert(next.drop_last() =~= old(self)@.glyphs.take(i - 1));
                assert(out@ =~= old(out)@ + run_text(next, first));
                assert(self.glyphs@ =~= Seq::new(
                    n as nat,
                    |k: int|
                        if k < i {
                            old(self)@.glyphs[k].drawn()
                        } else {
                            old(self)@.glyphs[k]
                        },
                ));
            }
        }
        assert(self.glyphs@ =~= old(self)@.emitted(width as nat).glyphs);
        running
    }

    /// The number of glyphs.
    pub fn len(&self) -> (n: usize)
        ensures
            n == self@.glyphs.len(),
    {
        self.glyphs.len()
    }

    /// The number of glyphs, whether they take up a column or not.
    pub fn raw_len(&self) -> (n: usize)
        ensures
            n == self@.glyphs.len(),
    {
        self.glyphs.len()
    }

    /// The number of glyphs that take up a column of their own.
    pub fn visible_len(&self) -> (n: usize)
        ensures
            n == count_fill(self@.glyphs),
    {
        let mut count: usize = 0;
        let mut i: usize = 0;
        while i < self.glyphs.len()
            invariant
                i <= self.glyphs.len(),
                count <= i,
                count == count_fill(self.glyphs@.take(i as int)),
            decreases self.glyphs.len() - i,
        {
            if self.glyphs[i].is_fill() {
                count += 1;
            }
            i += 1;
            assert(self.glyphs@.take(i as int).drop_last() =~= self.glyphs@.take(i - 1));
        }
        assert(self.glyphs@.take(self.glyphs.len() as int) =~= self.glyphs@);
        count
    }

    /// Where the glyph stands that is number `idx`, counted from 0, among
    /// those that take up a column of their own; nothing if there are not
    /// that many.
    pub fn visible_idx(&self, idx: usize) -> (r: Option<usize>)
        ensures
            match r {
                Some(j) => j < self@.glyphs.len() && is_fill_char(self@.glyphs[j as int].c)
                    && count_fill(self@.glyphs.take(j as int)) == idx,
                None => count_fill(self@.glyphs) <= idx,
            },
    {
        let mut seen: usize = 0;
        let mut j: usize = 0;
        while j < self.glyphs.len()
            invariant
                j <= self.glyphs.len(),
                seen <= j,
                seen <= idx,
                seen == count_fill(self.glyphs@.take(j as int)),
            decreases self.glyphs.len() - j,
        {
            if self.glyphs[j].is_fill() {
                if seen == idx {
                    return Some(j);
                }
                seen += 1;
            }
            j += 1;
            assert(self.glyphs@.take(j as int).drop_last() =~= self.glyphs@.take(j - 1));
        }
        assert(self.glyphs@.take(self.glyphs.len() as int) =~= self.glyphs@);
        None
    }

    /// The glyph that is number `idx`, counted from 0, among those that
    /// take up a column of their own.
    pub fn get(&self, idx: usize) -> (r: Option<Glyph>)
        ensures
            match r {
                Some(g) => exists|j: int|
                    0 <= j < self@.glyphs.len() && g == self@.glyphs[j] && is_fill_char(g.c)
                        && count_fill(self@.glyphs.take(j)) == idx,
                None => count_fill(self@.glyphs) <= idx,
            },
    {
        match self.visible_idx(idx) {
            Some(j) => Some(self.glyphs[j]),
            None => None,
        }
    }

    /// The characters of the row.
    pub fn plaintext(&self) -> (s: String)
        ensures
            s@ == self@.plaintext(),
    {
        let mut buf: Vec<char> = Vec::new();
        let mut i: usize = 0;
        while i < self.glyphs.len()
            invariant
                i <= self.glyphs.len(),
                buf@ == self@.plaintext().take(i as int),
            decreases self.glyphs.len() - i,
        {
            buf.push(self.glyphs[i].c);
            i += 1;
            assert(buf@ =~= self@.plaintext().take(i as int));
        }
        assert(buf@ =~= self@.plaintext());
        string_of(&buf)
    }

    /// The characters of the row, with the change of style written before
    /// each glyph whose style is not the one in force, which is
    /// `current_state` at first.
    pub fn to_str(&self, current_state: &PrintStyle) -> (s: String)
        ensures
            s@ == run_text(self@.glyphs, *current_state),
    {
        let mut buf: Vec<char> = Vec::new();
        let mut running = *current_state;
        let mut i: usize = 0;
        while i < self.glyphs.len()
            invariant
                i <= self.glyphs.len(),
                running == style_after(self.glyphs@.take(i as int), *current_state),
                buf@ == run_text(self.glyphs@.take(i as int), *current_state),
            decreases self.glyphs.len() - i,
        {
            let g = self.glyphs[i];
            running.push_diff(&g.style, &mut buf);
            running = g.style;
            buf.push(g.c);
            i += 1;
            proof {
                let next = self.glyphs@.take(i as int);
                assert(next.drop_last() =~= self.glyphs@.take(i - 1));
                assert(buf@ =~= run_text(next, *current_state));
            }
        }
        assert(self.glyphs@.take(self.glyphs.len() as int) =~= self.glyphs@);
        string_of(&buf)
    }
}

} // verus!
