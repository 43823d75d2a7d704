//! A pane: a rectangle of the host terminal that shows the output of one
//! task. It parses what is pushed to it, keeps the screen, and draws the
//! rows that changed.

use vstd::prelude::*;
use vstd::utf8::encode_utf8;
use crate::cursor::Cursor;
use crate::glyph_string::{Line, cursor_to, push_cursor_to, run_text};
use crate::stream_state::{ParserModel, StreamState, views};
use crate::style::{PrintStyle, TerminalError};
use crate::text::{ESC, chars_of, is_digit, parse_decimal, parse_number, push_all, string_of};
use crate::view_port::{DeletionType, Erase, ScrollMode, ViewModel, ViewPort, line_views};
use crate::vt100::{ControlKind, TerminalOutput, Token, VT100, begins_with};

verus! {

/// What a pane holds: its name, its origin on the host terminal, counted
/// from 1, its screen, and its parser.
pub struct PaneModel {
    pub id: Seq<char>,
    pub x: u16,
    pub y: u16,
    pub view: ViewModel,
    pub parser: ParserModel,
}

/// The first position at or behind `from` in `s` that holds no digit.
pub open spec fn digits_end(s: Seq<char>, from: int) -> int
    decreases s.len() - from,
{
    if from < 0 || from >= s.len() || !is_digit(s[from]) {
        from
    } else {
        digits_end(s, from + 1)
    }
}

/// The digits of the first parameter of the sequence `raw`: those directly
/// behind `ESC [`. Empty where there are none.
pub open spec fn first_param(raw: Seq<char>) -> Seq<char> {
    if begins_with(raw, ESC, '[') {
        raw.subrange(2, digits_end(raw, 2))
    } else {
        Seq::empty()
    }
}

/// Where the second parameter of the sequence `raw` begins: behind the first
/// parameter and the `;` that may follow it.
pub open spec fn second_param_start(raw: Seq<char>) -> int {
    let end = digits_end(raw, 2);
    if end < raw.len() && raw[end] == ';' {
        end + 1
    } else {
        end
    }
}

/// The digits of the second parameter of the sequence `raw`. Empty where
/// there are none.
pub open spec fn second_param(raw: Seq<char>) -> Seq<char> {
    if begins_with(raw, ESC, '[') {
        raw.subrange(second_param_start(raw), digits_end(raw, second_param_start(raw)))
    } else {
        Seq::empty()
    }
}

/// The number that the digits `text` give, or `default` where they give
/// none up to `max`.
pub open spec fn number_or(text: Seq<char>, max: nat, default: nat) -> nat {
    match parse_number(text, max) {
        Some(n) => n,
        None => default,
    }
}

/// By how much a sequence moves the cursor: its first parameter, or 1 where
/// that is missing or no number up to 65535.
pub open spec fn move_amount(raw: Seq<char>) -> u16 {
    number_or(first_param(raw), 0xffff, 1) as u16
}

/// The number in front of an erase sequence; nothing where it is missing or
/// no number up to 65535.
pub open spec fn erase_param(raw: Seq<char>) -> Option<u16> {
    match parse_number(first_param(raw), 0xffff) {
        Some(n) => Some(n as u16),
        None => None,
    }
}

/// What the erase sequence `raw` clears. A sequence that ends in `K` clears
/// within the row and one that ends in `J` on the screen: from the cursor on
/// without a number or with 0, up to the cursor with 1, all with 2, and
/// nothing with another number. Any other sequence clears the row if it
/// begins with `ESC k`, and nothing otherwise.
pub open spec fn erase_of(raw: Seq<char>) -> Erase {
    if raw.len() > 0 && raw.last() == 'K' {
        match erase_param(raw) {
            None => Erase::LineAfterCursor,
            Some(n) => if n == 0 {
                Erase::LineAfterCursor
            } else if n == 1 {
                Erase::LineToCursor
            } else if n == 2 {
                Erase::Line
            } else {
                Erase::Nothing
            },
        }
    } else if raw.len() > 0 && raw.last() == 'J' {
        match erase_param(raw) {
            None => Erase::ScreenAfterCursor,
            Some(n) => if n == 0 {
                Erase::ScreenAfterCursor
            } else if n == 1 {
                Erase::ScreenToCursor
            } else if n == 2 {
                Erase::Screen
            } else {
                Erase::Nothing
            },
        }
    } else if begins_with(raw, ESC, 'k') {
        Erase::Line
    } else {
        Erase::Nothing
    }
}

/// The screen after the cursor movement `raw`: `H` and `f` go to a row and
/// a column, `A`, `B`, `C` and `D` go up, down, right and left by an amount.
/// A parameter that is missing or no number counts as 1.
pub open spec fn move_cursor(v: ViewModel, raw: Seq<char>) -> ViewModel {
    if raw.len() == 0 {
        v
    } else if raw.last() == 'H' || raw.last() == 'f' {
        v.cursor_goto(
            number_or(first_param(raw), 0x7fff_ffff, 1) as int,
            number_or(second_param(raw), 0x7fff_ffff, 1) as int,
        )
    } else if raw.last() == 'A' {
        v.cursor_up(move_amount(raw))
    } else if raw.last() == 'B' {
        v.cursor_down(move_amount(raw))
    } else if raw.last() == 'C' {
        v.cursor_right(move_amount(raw))
    } else if raw.last() == 'D' {
        v.cursor_left(move_amount(raw))
    } else {
        v
    }
}

/// The screen after `c` was written at the cursor in the style in force:
/// the screen is made ready for writing, the glyph is set, and the cursor
/// moves right by one.
pub open spec fn write_glyph(v: ViewModel, c: char) -> ViewModel {
    let m = v.focus();
    m.with_line(m.cursor.y as int, m.current().set(v.cursor.x as int, c, v.style)).cursor_right(1)
}

/// Whether the text character `c` goes to the host terminal as it is: a
/// control character other than backspace, tab, line feed and carriage
/// return.
pub open spec fn char_passes(c: char) -> bool {
    ' ' > c && c != '\u{8}' && c != '\t' && c != '\n' && c != '\r'
}

/// The screen after the text character `c`.
#[verifier::opaque]
pub open spec fn put_char(v: ViewModel, c: char) -> ViewModel {
    if c == '\u{8}' {
        v.cursor_left(1)
    } else if c == '\n' {
        v.newline()
    } else if c == '\t' {
        write_glyph(write_glyph(write_glyph(write_glyph(v, ' '), ' '), ' '), ' ')
    } else if c == '\r' {
        v.cursor_home()
    } else if c == '\x7f' || ' ' > c {
        v
    } else {
        write_glyph(v, c)
    }
}

/// The screen after the text `s`.
pub open spec fn put_text(v: ViewModel, s: Seq<char>) -> ViewModel
    decreases s.len(),
{
    if s.len() == 0 {
        v
    } else {
        put_char(put_text(v, s.drop_last()), s.last())
    }
}

/// The characters of the text `s` that go to the host terminal.
pub open spec fn text_host(s: Seq<char>) -> Seq<char>
    decreases s.len(),
{
    if s.len() == 0 {
        Seq::empty()
    } else if char_passes(s.last()) {
        text_host(s.drop_last()).push(s.last())
    } else {
        text_host(s.drop_last())
    }
}

/// Whether a control sequence of this kind goes to the host terminal as it
/// is.
pub open spec fn control_passes(kind: ControlKind) -> bool {
    match kind {
        ControlKind::HideCursor => true,
        ControlKind::ShowCursor => true,
        ControlKind::GetCursorPos => true,
        ControlKind::EnterApplicationKeyMode => true,
        ControlKind::EnterAltKeypadMode => true,
        ControlKind::ExitAltKeypadMode => true,
        ControlKind::PassThrough => true,
        ControlKind::Unknown => true,
        _ => false,
    }
}

/// The screen after the control sequence `raw` of kind `kind`.
#[verifier::opaque]
pub open spec fn control(v: ViewModel, kind: ControlKind, raw: Seq<char>) -> ViewModel {
    match kind {
        ControlKind::SGR => match v.style.apply_sgr(raw) {
            Some(style) => ViewModel { style, ..v },
            None => v,
        },
        ControlKind::ScrollDown => v.cursor_up(1),
        ControlKind::ScrollUp => v.cursor_down(1),
        ControlKind::MoveCursor => move_cursor(v, raw),
        ControlKind::MoveCursorApp => move_cursor(v, raw),
        ControlKind::ClearLine => v.clear(erase_of(raw)),
        ControlKind::EraseLineBeforeCursor => v.clear(erase_of(raw)),
        ControlKind::EraseLineAfterCursor => v.clear(erase_of(raw)),
        ControlKind::EraseScreen => v.clear(erase_of(raw)),
        _ => v,
    }
}

/// The screen after one token.
pub open spec fn dispatch(v: ViewModel, token: Token) -> ViewModel {
    match token.kind {
        None => put_text(v, token.raw),
        Some(kind) => control(v, kind, token.raw),
    }
}

/// What one token sends to the host terminal.
pub open spec fn token_host(token: Token) -> Seq<char> {
    match token.kind {
        None => text_host(token.raw),
        Some(kind) => if control_passes(kind) {
            token.raw
        } else {
            Seq::empty()
        },
    }
}

/// The screen after the tokens, taken from the left.
pub open spec fn dispatch_all(v: ViewModel, tokens: Seq<Token>) -> ViewModel
    decreases tokens.len(),
{
    if tokens.len() == 0 {
        v
    } else {
        dispatch(dispatch_all(v, tokens.drop_last()), tokens.last())
    }
}

/// What the tokens send to the host terminal.
pub open spec fn host_all(tokens: Seq<Token>) -> Seq<char>
    decreases tokens.len(),
{
    if tokens.len() == 0 {
        Seq::empty()
    } else {
        host_all(tokens.drop_last()) + token_host(tokens.last())
    }
}

/// What drawing the first `upto` of the rows `lines` writes: each dirty row
/// is drawn at the pane's column and its own row of the host terminal.
pub open spec fn render_text(
    lines: Seq<Line>,
    x: nat,
    y: nat,
    width: nat,
    style: PrintStyle,
    upto: int,
) -> Seq<char>
    decreases upto,
{
    if upto <= 0 {
        Seq::empty()
    } else {
        render_text(lines, x, y, width, style, upto - 1) + if lines[upto - 1].is_dirty() {
            lines[upto - 1].emit_text(x, (y + upto - 1) as nat, width, style)
        } else {
            Seq::empty()
        }
    }
}

/// The rows once the dirty ones among the first `upto` have been drawn.
pub open spec fn rendered(lines: Seq<Line>, width: nat, upto: int) -> Seq<Line> {
    Seq::new(
        lines.len(),
        |k: int|
            if k < upto && lines[k].is_dirty() {
                lines[k].emitted(width)
            } else {
                lines[k]
            },
    )
}

/// Row `k` as text, beginning in style `style`; a row that does not exist
/// yet shows nothing.
pub open spec fn row_text(lines: Seq<Line>, style: PrintStyle, k: int) -> Seq<char> {
    if 0 <= k < lines.len() {
        run_text(lines[k].glyphs, style)
    } else {
        Seq::empty()
    }
}

/// The first `upto` rows of a grid as text, with a line feed between them.
pub open spec fn grid_text(lines: Seq<Line>, style: PrintStyle, upto: int) -> Seq<char>
    decreases upto,
{
    if upto <= 0 {
        Seq::empty()
    } else if upto == 1 {
        row_text(lines, style, 0)
    } else {
        grid_text(lines, style, upto - 1) + seq!['\n'] + row_text(lines, style, upto - 1)
    }
}

impl PaneModel {
    pub open spec fn wf(self) -> bool {
        self.view.wf() && self.parser.wf()
    }

    /// The tokens that a push of `s` hands to the screen.
    pub open spec fn tokens(self, s: Seq<char>) -> Seq<Token> {
        self.parser.feed(s).flushed().vetted
    }

    /// The pane after a push of `s`: the parser has taken the characters
    /// and keeps what is undecided, the screen has taken the tokens.
    pub open spec fn push(self, s: Seq<char>) -> PaneModel {
        PaneModel {
            view: dispatch_all(self.view, self.tokens(s)),
            parser: ParserModel { vetted: Seq::empty(), ..self.parser.feed(s).flushed() },
            ..self
        }
    }

    /// What a push of `s` sends to the host terminal.
    pub open spec fn host_output(self, s: Seq<char>) -> Seq<char> {
        host_all(self.tokens(s))
    }

    /// What drawing the pane writes.
    pub open spec fn render_output(self) -> Seq<char> {
        let rows = self.view.visible().lines;
        render_text(
            rows,
            self.x as nat,
            self.y as nat,
            self.view.width as nat,
            self.view.style,
            rows.len() as int,
        )
    }

    /// The pane once it has been drawn.
    pub open spec fn drawn(self) -> PaneModel {
        let rows = self.view.visible().lines;
        PaneModel {
            view: self.view.with_lines(rendered(rows, self.view.width as nat, rows.len() as int)),
            ..self
        }
    }
}

pub struct Pane {
    pub id: String,
    pub x: u16,
    pub y: u16,
    view_port: ViewPort,
    stream_state: StreamState,
}

impl View for Pane {
    type V = PaneModel;

    closed spec fn view(&self) -> PaneModel {
        PaneModel {
            id: self.id@,
            x: self.x,
            y: self.y,
            view: self.view_port@,
            parser: self.stream_state@,
        }
    }
}

impl Pane {
    /// A pane with its top left corner at column `x`, row `y` of the host
    /// terminal. It starts in `Fixed` mode, with nothing on its screen.
    pub fn new(id: &str, x: u16, y: u16, height: u16, width: u16) -> (p: Pane)
        ensures
            p@ == (PaneModel {
                id: id@,
                x,
                y,
                view: ViewModel::initial(width, height, ScrollMode::Fixed),
                parser: ParserModel::initial(),
            }),
            p@.wf(),
    {
        let view_port = ViewPort::new(String::from_str(id), width, height, ScrollMode::Fixed);
        Pane { id: String::from_str(id), x, y, view_port, stream_state: StreamState::new() }
    }

    pub fn width(&self) -> (w: u16)
        ensures
            w == self@.view.width,
    {
        self.view_port.width()
    }

    pub fn height(&self) -> (h: u16)
        ensures
            h == self@.view.height,
    {
        self.view_port.height()
    }

    /// Says what is to happen to output below the last row from now on.
    pub fn set_scroll_mode(&mut self, mode: ScrollMode)
        ensures
            final(self)@ == (PaneModel {
                view: ViewModel { scroll: mode, ..old(self)@.view },
                ..old(self)@
            }),
    {
        self.view_port.set_scroll_mode(mode);
    }

    /// The pane's cursor.
    pub fn cursor(&self) -> (c: &Cursor)
        ensures
            *c == self@.view.cursor,
    {
        self.view_port.cursor()
    }

    /// Takes the characters of `s`: what the parser makes of them goes to
    /// the screen, and what is meant for the host terminal is returned.
    /// Never fails.
    pub fn push(&mut self, s: &str) -> (r: Result<String, TerminalError>)
        requires
            old(self)@.wf(),
        ensures
            r is Ok,
            r->Ok_0@ == old(self)@.host_output(s@),
            final(self)@ == old(self)@.push(s@),
            final(self)@.wf(),
    {
        let ghost before = self@;
        self.stream_state.push(s);
        let ghost after_feed = self.stream_state@;
        let tokens = self.stream_state.consume();
        let mut host: Vec<char> = Vec::new();
        let ghost all = views(tokens@);
        let ghost fed = self@;
        proof {
            assert(after_feed == before.parser.feed(s@));
            assert(all == before.tokens(s@));
            assert(fed == (PaneModel {
                parser: ParserModel { vetted: Seq::empty(), ..after_feed.flushed() },
                ..before
            }));
        }
        self.handle_all(&tokens, &mut host);
        assert(host@ =~= host_all(all));
        Ok(string_of(&host))
    }

    /// Hands the tokens to the screen, one after the other, and appends to
    /// `host` what they send to the host terminal.
    fn handle_all(&mut self, tokens: &Vec<TerminalOutput>, host: &mut Vec<char>)
        requires
            old(self)@.view.wf(),
        ensures
            final(self)@ == (PaneModel {
                view: dispatch_all(old(self)@.view, views(tokens@)),
                ..old(self)@
            }),
            final(self)@.view.wf(),
            final(host)@ == old(host)@ + host_all(views(tokens@)),
    {
        let ghost all = views(tokens@);
        let mut i: usize = 0;
        assert(all.take(0) =~= Seq::<Token>::empty());
        assert(host@ =~= old(host)@ + host_all(all.take(0)));
        while i < tokens.len()
            invariant
                i <= tokens.len(),
                all == views(tokens@),
                self@.view.wf(),
                self@ == (PaneModel {
                    view: dispatch_all(old(self)@.view, all.take(i as int)),
                    ..old(self)@
                }),
                host@ == old(host)@ + host_all(all.take(i as int)),
            decreases tokens.len() - i,
        {
            assert(all[i as int] == tokens@[i as int]@);
            self.handle(&tokens[i], host);
            i += 1;
            proof {
                let next = all.take(i as int);
                assert(next.drop_last() =~= all.take(i - 1));
                assert(next.last() == all[i - 1]);
                assert(host@ =~= old(host)@ + host_all(next));
            }
        }
        assert(all.take(tokens.len() as int) =~= all);
    }

    /// Hands one token to the screen, and appends to `host` what it sends
    /// to the host terminal.
    pub fn handle(&mut self, token: &TerminalOutput, host: &mut Vec<char>)
        requires
            old(self)@.view.wf(),
        ensures
            final(self)@ == (PaneModel { view: dispatch(old(self)@.view, token@), ..old(self)@ }),
            final(self)@.view.wf(),
            final(host)@ == old(host)@ + token_host(token@),
    {
        match token {
            TerminalOutput::Plaintext(plain) => {
                self.write_text(plain.as_str(), host);
            },
            TerminalOutput::CSI(vt100_code) => {
                self.handle_control(vt100_code, host);
            },
        }
    }

    /// Takes the characters of a piece of plain text, one after the other.
    fn write_text(&mut self, plain: &str, host: &mut Vec<char>)
        requires
            old(self)@.view.wf(),
        ensures
            final(self)@ == (PaneModel { view: put_text(old(self)@.view, plain@), ..old(self)@ }),
            final(self)@.view.wf(),
            final(host)@ == old(host)@ + text_host(plain@),
    {
        let chars = chars_of(plain);
        let mut i: usize = 0;
        assert(chars@.take(0) =~= Seq::<char>::empty());
        assert(host@ =~= old(host)@ + text_host(chars@.take(0)));
        while i < chars.len()
            invariant
                i <= chars.len(),
                chars@ == plain@,
                self@.view.wf(),
                self@ == (PaneModel {
                    view: put_text(old(self)@.view, chars@.take(i as int)),
                    ..old(self)@
                }),
                host@ == old(host)@ + text_host(chars@.take(i as int)),
            decreases chars.len() - i,
        {
            let ghost before = host@;
            self.write_char(chars[i], host);
            i += 1;
            proof {
                let next = chars@.take(i as int);
                assert(next.drop_last() =~= chars@.take(i - 1));
                assert(next.last() == chars@[i - 1]);
                assert(host@ =~= old(host)@ + text_host(next));
            }
        }
        assert(chars@.take(chars.len() as int) =~= chars@);
    }

    /// Does what a control sequence asks for, or appends it to `host` where
    /// it is meant for the host terminal.
    fn handle_control(&mut self, vt100_code: &VT100, host: &mut Vec<char>)
        requires
            old(self)@.view.wf(),
        ensures
            final(self)@ == (PaneModel {
                view: control(old(self)@.view, vt100_code.kind(), vt100_code.raw()),
                ..old(self)@
            }),
            final(self)@.view.wf(),
            final(host)@ == old(host)@ + if control_passes(vt100_code.kind()) {
                vt100_code.raw()
            } else {
                Seq::empty()
            },
    {
        reveal(control);
        let code = vt100_code.to_string();
        match vt100_code.control_kind() {
            ControlKind::SGR => {
                let _ = self.view_port.apply_style(code.as_str());
            },
            ControlKind::ScrollDown => {
                self.view_port.cursor_up(1);
            },
            ControlKind::ScrollUp => {
                self.view_port.cursor_down(1);
            },
            ControlKind::MoveCursor | ControlKind::MoveCursorApp => {
                let _ = self.move_cursor(code.as_str());
            },
            ControlKind::ClearLine
            | ControlKind::EraseLineBeforeCursor
            | ControlKind::EraseLineAfterCursor
            | ControlKind::EraseScreen => {
                let _ = self.delete_text(code.as_str());
            },
            ControlKind::HideCursor
            | ControlKind::ShowCursor
            | ControlKind::GetCursorPos
            | ControlKind::EnterApplicationKeyMode
            | ControlKind::EnterAltKeypadMode
            | ControlKind::ExitAltKeypadMode
            | ControlKind::PassThrough
            | ControlKind::Unknown => {
                push_all(host, &chars_of(code.as_str()));
            },
        }
        assert(host@ =~= old(host)@ + if control_passes(vt100_code.kind()) {
            vt100_code.raw()
        } else {
            Seq::empty()
        });
    }

    /// Takes one text character: it moves the cursor, is written as a
    /// glyph, or goes to `host`.
    fn write_char(&mut self, c: char, host: &mut Vec<char>)
        requires
            old(self)@.view.wf(),
        ensures
            final(self)@ == (PaneModel { view: put_char(old(self)@.view, c), ..old(self)@ }),
            final(self)@.view.wf(),
            final(host)@ == if char_passes(c) {
                old(host)@.push(c)
            } else {
                old(host)@
            },
    {
        reveal(put_char);
        if c == '\u{8}' {
            self.view_port.cursor_left(1);
        } else if c == '\n' {
            self.view_port.newline();
        } else if c == '\t' {
            self.write_glyph(' ');
            self.write_glyph(' ');
            self.write_glyph(' ');
            self.write_glyph(' ');
        } else if c == '\r' {
            self.view_port.cursor_home();
        } else if c == '\x7f' {
        } else if ' ' > c {
            host.push(c);
        } else {
            self.write_glyph(c);
        }
    }

    /// Writes `c` at the cursor in the style in force and moves the cursor
    /// right by one.
    fn write_glyph(&mut self, c: char)
        requires
            old(self)@.view.wf(),
        ensures
            final(self)@ == (PaneModel { view: write_glyph(old(self)@.view, c), ..old(self)@ }),
            final(self)@.view.wf(),
    {
        let index = self.view_port.cursor().x();
        let style = self.view_port.style();
        let line = self.view_port.cur_line();
        line.set(index as usize, c, &style);
        self.view_port.cursor_right(1);
    }

    /// Draws the rows that are dirty, and appends what that takes to
    /// `target` as UTF-8. Afterwards the pane holds no more rows than it is
    /// high. Never fails.
    pub fn write(&mut self, target: &mut Vec<u8>) -> (r: Result<(), TerminalError>)
        ensures
            r is Ok,
            final(self)@ == old(self)@.drawn(),
            final(self)@.view.lines.len() <= old(self)@.view.height,
            old(self)@.view.wf() ==> final(self)@.view.wf(),
            final(target)@ == old(target)@ + encode_utf8(old(self)@.render_output()),
    {
        let ps = self.view_port.style();
        let x_off = self.x as u32;
        let y_off = self.y as u32;
        let width = self.view_port.width();
        let mut chunks: Vec<char> = Vec::new();
        let ghost start = self.view_port@.visible().lines;
        let rows = self.view_port.take_visible_lines();
        let n = rows.len();
        let mut line_idx: usize = 0;
        assert(line_views(rows@) =~= rendered(start, width as nat, 0));
        while line_idx < n
            invariant
                line_idx <= n,
                n == rows.len(),
                n == start.len(),
                n <= 0xffff,
                x_off <= 0xffff,
                y_off <= 0xffff,
                line_views(rows@) == rendered(start, width as nat, line_idx as int),
                chunks@ == render_text(
                    start,
                    x_off as nat,
                    y_off as nat,
                    width as nat,
                    ps,
                    line_idx as int,
                ),
            decreases n - line_idx,
        {
            let ghost prev = rows@;
            assert(line_views(prev)[line_idx as int] == prev[line_idx as int]@);
            if rows[line_idx].dirty() {
                rows[line_idx].emit(x_off, y_off + line_idx as u32, width, &ps, &mut chunks);
            }
            line_idx += 1;
            assert forall|k: int| 0 <= k < n implies #[trigger] line_views(rows@)[k] == rendered(
                start,
                width as nat,
                line_idx as int,
            )[k] by {
                assert(line_views(prev)[k] == prev[k]@);
            }
            assert(line_views(rows@) =~= rendered(start, width as nat, line_idx as int));
        }
        let text = string_of(&chunks);
        target.extend_from_slice(text.as_str().as_bytes());
        Ok(())
    }

    /// Appends to `target` the sequence that puts the host cursor where the
    /// pane's cursor is. Never fails.
    pub fn take_cursor(&self, target: &mut Vec<u8>) -> (r: Result<(), TerminalError>)
        ensures
            r is Ok,
            final(target)@ == old(target)@ + encode_utf8(
                cursor_to(
                    (self@.y + self@.view.cursor.y) as nat,
                    (self@.x + self@.view.cursor.x) as nat,
                ),
            ),
    {
        let row = self.view_port.cursor().row();
        let col = self.view_port.cursor().col();
        let global_y: u32 = (row + self.y as i32 - 1) as u32;
        let global_x: u32 = (col + self.x as i32 - 1) as u32;
        let mut buf: Vec<char> = Vec::new();
        push_cursor_to(&mut buf, global_y, global_x);
        assert(buf@ =~= cursor_to(global_y as nat, global_x as nat));
        let text = string_of(&buf);
        target.extend_from_slice(text.as_str().as_bytes());
        Ok(())
    }

    /// Clears what the erase sequence `vt100_code` asks for, see
    /// [`erase_of`]. Never fails.
    pub fn delete_text(&mut self, vt100_code: &str) -> (r: Result<(), TerminalError>)
        requires
            old(self)@.view.wf(),
        ensures
            r is Ok,
            final(self)@ == (PaneModel {
                view: old(self)@.view.clear(erase_of(vt100_code@)),
                ..old(self)@
            }),
            final(self)@.view.wf(),
    {
        let chars = chars_of(vt100_code);
        let n = chars.len();
        let deletion_type = if n > 0 && chars[n - 1] == 'K' {
            match Pane::deletion_type(vt100_code) {
                None => DeletionType::ClearLineAfterCursor,
                Some(0) => DeletionType::ClearLineAfterCursor,
                Some(1) => DeletionType::ClearLineToCursor,
                Some(2) => DeletionType::ClearLine,
                _ => DeletionType::Unknown(String::from_str(vt100_code)),
            }
        } else if n > 0 && chars[n - 1] == 'J' {
            match Pane::deletion_type(vt100_code) {
                None => DeletionType::ClearScreenAfterCursor,
                Some(0) => DeletionType::ClearScreenAfterCursor,
                Some(1) => DeletionType::ClearScreenToCursor,
                Some(2) => DeletionType::ClearScreen,
                _ => DeletionType::Unknown(String::from_str(vt100_code)),
            }
        } else if n >= 2 && chars[0] == ESC && chars[1] == 'k' {
            DeletionType::ClearLine
        } else {
            DeletionType::Unknown(String::from_str(vt100_code))
        };
        self.view_port.clear(deletion_type);
        Ok(())
    }

    /// Moves the cursor as the sequence `vt100_code` asks, see
    /// [`move_cursor`]. Never fails.
    pub fn move_cursor(&mut self, vt100_code: &str) -> (r: Result<(), TerminalError>)
        requires
            old(self)@.view.wf(),
        ensures
            r is Ok,
            final(self)@ == (PaneModel {
                view: move_cursor(old(self)@.view, vt100_code@),
                ..old(self)@
            }),
            final(self)@.view.wf(),
    {
        let chars = chars_of(vt100_code);
        let n = chars.len();
        if n == 0 {
            return Ok(());
        }
        let last_char = chars[n - 1];
        if last_char == 'H' || last_char == 'f' {
            let (row, col) = goto_target(&chars);
            self.view_port.cursor_goto(row, col);
        } else if last_char == 'A' {
            let up = amount_of(&chars);
            self.view_port.cursor_up(up);
        } else if last_char == 'B' {
            let down = amount_of(&chars);
            self.view_port.cursor_down(down);
        } else if last_char == 'C' {
            let right = amount_of(&chars);
            self.view_port.cursor_right(right);
        } else if last_char == 'D' {
            let left = amount_of(&chars);
            self.view_port.cursor_left(left);
        }
        Ok(())
    }

    /// By how much the sequence `vt100_code` moves the cursor, see
    /// [`move_amount`]. Never fails.
    pub fn cursor_move_amount(vt100_code: &str) -> (r: Result<u16, TerminalError>)
        ensures
            r == Ok::<u16, TerminalError>(move_amount(vt100_code@)),
    {
        let chars = chars_of(vt100_code);
        Ok(amount_of(&chars))
    }

    /// The number in front of the erase sequence `vt100_code`, see
    /// [`erase_param`].
    pub fn deletion_type(vt100_code: &str) -> (r: Option<u16>)
        ensures
            r == erase_param(vt100_code@),
    {
        let chars = chars_of(vt100_code);
        match read_param(&chars, 2, 0xffff) {
            (Some(n), _) => Some(n as u16),
            (None, _) => None,
        }
    }

    /// The grid of the pane as text: as many rows as the pane is high, with
    /// a line feed between them. Each row begins in the style in force, a
    /// change of style within it is written out, and a row that does not
    /// exist yet shows nothing. Rows that the pane does not show are
    /// dropped first.
    pub fn plaintext(&mut self) -> (s: String)
        ensures
            final(self)@ == (PaneModel { view: old(self)@.view.visible(), ..old(self)@ }),
            s@ == grid_text(
                old(self)@.view.visible().lines,
                old(self)@.view.style,
                old(self)@.view.height as int,
            ),
    {
        let state = self.view_port.style();
        let height = self.view_port.height() as usize;
        let mut buf: Vec<char> = Vec::new();
        let rows = self.view_port.take_visible_lines();
        let n = rows.len();
        let mut i: usize = 0;
        while i < height
            invariant
                i <= height,
                n == rows.len(),
                buf@ == grid_text(line_views(rows@), state, i as int),
            decreases height - i,
        {
            if i > 0 {
                buf.push('\n');
            }
            if i < n {
                let text = rows[i].to_str(&state);
                assert(line_views(rows@)[i as int] == rows@[i as int]@);
                push_all(&mut buf, &chars_of(text.as_str()));
            }
            i += 1;
            assert(buf@ =~= grid_text(line_views(rows@), state, i as int));
        }
        string_of(&buf)
    }
}

/// Reads the digits at position `from` of `raw` as a number up to `max`,
/// and says where they end. Nothing is read where `raw` does not begin with
/// `ESC [`.
fn read_param(raw: &Vec<char>, from: usize, max: u64) -> (r: (Option<u64>, usize))
    requires
        2 <= from,
    ensures
        begins_with(raw@, ESC, '[') && from <= raw.len() ==> r.1 == digits_end(raw@, from as int)
            && from <= r.1 <= raw.len() && match r.0 {
            Some(n) => parse_number(raw@.subrange(from as int, r.1 as int), max as nat) == Some(
                n as nat,
            ),
            None => parse_number(raw@.subrange(from as int, r.1 as int), max as nat) is None,
        },
        !(begins_with(raw@, ESC, '[') && from <= raw.len()) ==> r.0 is None,
{
    let n = raw.len();
    if n < 2 || raw[0] != ESC || raw[1] != '[' || from > n {
        return (None, from);
    }
    let mut end: usize = from;
    while end < n && '0' <= raw[end] && raw[end] <= '9'
        invariant
            from <= end <= n,
            n == raw.len(),
            digits_end(raw@, from as int) == digits_end(raw@, end as int),
        decreases n - end,
    {
        end += 1;
    }
    (parse_decimal(raw, from, end, max), end)
}

/// By how much the sequence `raw` moves the cursor, see [`move_amount`].
fn amount_of(raw: &Vec<char>) -> (r: u16)
    ensures
        r == move_amount(raw@),
{
    match read_param(raw, 2, 0xffff) {
        (Some(n), _) => n as u16,
        (None, _) => {
            proof {
                if !begins_with(raw@, ESC, '[') {
                    assert(parse_number(Seq::<char>::empty(), 0xffff) is None);
                }
            }
            1
        },
    }
}

/// The row and the column that the sequence `raw` sends the cursor to.
fn goto_target(raw: &Vec<char>) -> (r: (i32, i32))
    ensures
        r.0 == number_or(first_param(raw@), 0x7fff_ffff, 1),
        r.1 == number_or(second_param(raw@), 0x7fff_ffff, 1),
{
    proof {
        assert(parse_number(Seq::<char>::empty(), 0x7fff_ffff) is None);
    }
    let (first, end) = read_param(raw, 2, 0x7fff_ffff);
    let row: i32 = match first {
        Some(n) => n as i32,
        None => 1,
    };
    let n = raw.len();
    if n < 2 || raw[0] != ESC || raw[1] != '[' {
        return (row, 1);
    }
    let start: usize = if end < n && raw[end] == ';' { end + 1 } else { end };
    let (second, _) = read_param(raw, start, 0x7fff_ffff);
    let col: i32 = match second {
        Some(n) => n as i32,
        None => 1,
    };
    (row, col)
}

} // verus!
