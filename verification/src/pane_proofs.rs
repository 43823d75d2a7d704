//! What holds of a pane whatever it is fed: the way its input is cut into
//! pieces does not matter, and plain text is read back as it was written.

use vstd::prelude::*;
use crate::cursor::Cursor;
use crate::glyph_string::{Glyph, Line};
use crate::pane::{
    PaneModel, char_passes, control, dispatch, dispatch_all, erase_of, host_all, move_cursor,
    put_char, put_text, render_text, rendered, text_host, token_host, write_glyph,
};
use crate::parser_proofs::lemma_feed_append;
use crate::stream_state::{ParserModel, is_complete_sequence, is_introducer};
use crate::style::PrintStyle;
use crate::text::ESC;
use crate::view_port::{Erase, ScrollMode, ViewModel};
use crate::vt100::{ControlKind, Token, classify};

verus! {

/// What a step of the parser on `c` does to the screen `v`. It goes by what
/// waits in the parser, not by the tokens that are ready.
pub open spec fn step_effect(m: ParserModel, c: char, v: ViewModel) -> ViewModel {
    if !m.in_escape {
        if c == ESC {
            v
        } else {
            put_char(v, c)
        }
    } else {
        let buf = m.buffer.push(c);
        if buf.len() == 2 && !is_introducer(c) {
            dispatch(v, Token { kind: None, raw: buf })
        } else if is_complete_sequence(buf) {
            dispatch(v, Token { kind: Some(classify(buf)), raw: buf })
        } else {
            v
        }
    }
}

/// What a step of the parser on `c` sends to the host terminal.
pub open spec fn step_host(m: ParserModel, c: char) -> Seq<char> {
    if !m.in_escape {
        if c != ESC && char_passes(c) {
            seq![c]
        } else {
            Seq::empty()
        }
    } else {
        let buf = m.buffer.push(c);
        if buf.len() == 2 && !is_introducer(c) {
            token_host(Token { kind: None, raw: buf })
        } else if is_complete_sequence(buf) {
            token_host(Token { kind: Some(classify(buf)), raw: buf })
        } else {
            Seq::empty()
        }
    }
}

/// The parser `m` without the tokens that are ready.
pub open spec fn drained(m: ParserModel) -> ParserModel {
    ParserModel { vetted: Seq::empty(), ..m }
}

/// A text character that joins the tokens does to the screen what the
/// character does, and sends to the host what the character sends.
pub proof fn lemma_with_text(m: ParserModel, c: char, v: ViewModel)
    ensures
        dispatch_all(v, m.with_text(c)) == put_char(dispatch_all(v, m.vetted), c),
        host_all(m.with_text(c)) == host_all(m.vetted) + if char_passes(c) {
            seq![c]
        } else {
            Seq::empty()
        },
{
    let tokens = m.with_text(c);
    assert(text_host(Seq::<char>::empty()) =~= Seq::<char>::empty());
    if m.vetted.len() > 0 && m.vetted.last().kind is None {
        let last = m.vetted.last();
        let merged = Token { kind: None, raw: last.raw.push(c) };
        let u = dispatch_all(v, m.vetted.drop_last());
        assert(tokens.drop_last() =~= m.vetted.drop_last());
        assert(tokens.last() == merged);
        assert(merged.raw.drop_last() =~= last.raw);
        assert(merged.raw.last() == c);
        assert(dispatch_all(v, tokens) == dispatch(u, merged));
        assert(dispatch(u, merged) == put_char(put_text(u, last.raw), c));
        assert(dispatch_all(v, m.vetted) == dispatch(u, last));
        assert(text_host(merged.raw) =~= text_host(last.raw) + if char_passes(c) {
            seq![c]
        } else {
            Seq::empty()
        });
        assert(host_all(tokens) == host_all(m.vetted.drop_last()) + token_host(merged));
        assert(host_all(m.vetted) == host_all(m.vetted.drop_last()) + token_host(last));
        assert(host_all(tokens) =~= host_all(m.vetted) + if char_passes(c) {
            seq![c]
        } else {
            Seq::empty()
        });
    } else {
        let single = Token { kind: None, raw: seq![c] };
        let u = dispatch_all(v, m.vetted);
        assert(tokens.drop_last() =~= m.vetted);
        assert(tokens.last() == single);
        assert(single.raw.drop_last() =~= Seq::<char>::empty());
        assert(single.raw.last() == c);
        assert(put_text(u, single.raw.drop_last()) == u);
        assert(dispatch(u, single) == put_char(u, c));
        assert(text_host(single.raw) =~= if char_passes(c) {
            seq![c]
        } else {
            Seq::empty()
        });
        assert(host_all(tokens) == host_all(m.vetted) + token_host(single));
    }
}

/// The tokens after a step do to the screen what the tokens before it did,
/// and then what the step does.
pub proof fn lemma_step_effect(m: ParserModel, c: char, v: ViewModel)
    ensures
        dispatch_all(v, m.step(c).vetted) == step_effect(m, c, dispatch_all(v, m.vetted)),
        host_all(m.step(c).vetted) == host_all(m.vetted) + step_host(m, c),
{
    let n = m.step(c);
    if !m.in_escape {
        if c == ESC {
            assert(host_all(n.vetted) =~= host_all(m.vetted) + step_host(m, c));
        } else {
            lemma_with_text(m, c, v);
        }
    } else {
        let buf = m.buffer.push(c);
        if (buf.len() == 2 && !is_introducer(c)) || is_complete_sequence(buf) {
            assert(n.vetted.drop_last() =~= m.vetted);
        } else {
            assert(host_all(n.vetted) =~= host_all(m.vetted) + step_host(m, c));
        }
    }
}

/// Feeding a text to a parser whose ready tokens were taken away hands to
/// the screen what is missing from feeding it to the parser that has them.
pub proof fn lemma_feed_in_pieces(m: ParserModel, b: Seq<char>, v: ViewModel)
    ensures
        m.feed(b).buffer == drained(m).feed(b).buffer,
        m.feed(b).in_escape == drained(m).feed(b).in_escape,
        dispatch_all(v, m.feed(b).vetted) == dispatch_all(
            dispatch_all(v, m.vetted),
            drained(m).feed(b).vetted,
        ),
        host_all(m.feed(b).vetted) == host_all(m.vetted) + host_all(drained(m).feed(b).vetted),
    decreases b.len(),
{
    let u = dispatch_all(v, m.vetted);
    if b.len() == 0 {
        assert(host_all(m.vetted) + host_all(drained(m).vetted) =~= host_all(m.vetted));
    } else {
        let full = m.feed(b.drop_last());
        let part = drained(m).feed(b.drop_last());
        lemma_feed_in_pieces(m, b.drop_last(), v);
        lemma_step_effect(full, b.last(), v);
        lemma_step_effect(part, b.last(), u);
        assert(step_host(full, b.last()) == step_host(part, b.last()));
        assert(host_all(m.feed(b).vetted) =~= host_all(m.vetted) + host_all(
            drained(m).feed(b).vetted,
        ));
    }
}

/// What giving up a lone `ESC` that waits does to the screen `v`.
pub open spec fn flush_effect(m: ParserModel, v: ViewModel) -> ViewModel {
    if m.buffer == seq![ESC] {
        dispatch(v, Token { kind: None, raw: seq![ESC] })
    } else {
        v
    }
}

/// What giving up a lone `ESC` that waits sends to the host terminal.
pub open spec fn flush_host(m: ParserModel) -> Seq<char> {
    if m.buffer == seq![ESC] {
        token_host(Token { kind: None, raw: seq![ESC] })
    } else {
        Seq::empty()
    }
}

/// The tokens after a lone `ESC` was given up do to the screen what the
/// tokens before did, and then what giving it up does.
pub proof fn lemma_flush_effect(m: ParserModel, v: ViewModel)
    ensures
        dispatch_all(v, m.flushed().vetted) == flush_effect(m, dispatch_all(v, m.vetted)),
        host_all(m.flushed().vetted) == host_all(m.vetted) + flush_host(m),
{
    if m.buffer == seq![ESC] {
        assert(m.flushed().vetted.drop_last() =~= m.vetted);
    } else {
        assert(host_all(m.flushed().vetted) =~= host_all(m.vetted) + flush_host(m));
    }
}

/// How the input of a pane is cut into pushes does not matter, as long as
/// no cut leaves a lone `ESC` waiting: pushing `a` and then `b` leaves the
/// pane as pushing the two as one text does, and sends the same to the host
/// terminal. With that, what drawing the pane writes, which goes by the
/// pane alone, is the same too.
pub proof fn lemma_push_in_pieces(p: PaneModel, a: Seq<char>, b: Seq<char>)
    requires
        p.parser.feed(a).buffer != seq![ESC],
    ensures
        p.push(a).push(b) == p.push(a + b),
        p.host_output(a) + p.push(a).host_output(b) == p.host_output(a + b),
        p.push(a).push(b).render_output() == p.push(a + b).render_output(),
{
    let fed = p.parser.feed(a);
    assert(fed.flushed() == fed);
    let part = drained(fed).feed(b);
    let full = fed.feed(b);
    let u = dispatch_all(p.view, fed.vetted);
    lemma_feed_append(p.parser, a, b);
    lemma_feed_in_pieces(fed, b, p.view);
    lemma_flush_effect(full, p.view);
    lemma_flush_effect(part, u);
    assert(p.push(a).parser == drained(fed));
    assert(p.push(a).view == u);
    assert(p.push(a + b).view == p.push(a).push(b).view);
    assert(p.push(a + b).parser == p.push(a).push(b).parser);
    assert(p.host_output(a) + p.push(a).host_output(b) =~= p.host_output(a + b));
}

/// What drawing a pane writes goes by the rows that the pane shows, with
/// their dirty flags, by where and how wide the pane is, and by the style in
/// force: two panes that agree in these write the same, whatever else they
/// hold and however they got there.
pub proof fn lemma_render_by_grid(p: PaneModel, q: PaneModel)
    requires
        p.view.visible().lines == q.view.visible().lines,
        p.x == q.x,
        p.y == q.y,
        p.view.width == q.view.width,
        p.view.style == q.view.style,
    ensures
        p.render_output() == q.render_output(),
{
}

/// Whether `s` holds printable ASCII characters only: `0x20` to `0x7E`.
pub open spec fn is_printable_ascii(s: Seq<char>) -> bool {
    forall|i: int| 0 <= i < s.len() ==> ' ' <= #[trigger] s[i] && s[i] <= '~'
}

/// The row that writing the text `s` in style `style` into an empty row
/// leaves.
pub open spec fn written_line(s: Seq<char>, style: PrintStyle) -> Line {
    Line { glyphs: Seq::new(s.len(), |k: int| Glyph::written(s[k], style)), dirty: true }
}

/// A parser that has seen nothing makes one token of a text without `ESC`.
pub proof fn lemma_feed_plain(s: Seq<char>)
    requires
        s.len() > 0,
        forall|i: int| 0 <= i < s.len() ==> #[trigger] s[i] != ESC,
    ensures
        ParserModel::initial().feed(s) == (ParserModel {
            buffer: Seq::empty(),
            vetted: seq![Token { kind: None, raw: s }],
            in_escape: false,
        }),
    decreases s.len(),
{
    let start = ParserModel::initial();
    let before = start.feed(s.drop_last());
    if s.len() == 1 {
        assert(s.drop_last() =~= Seq::<char>::empty());
        assert(before == start);
        assert(seq![s.last()] =~= s);
        assert(before.step(s.last()).vetted =~= seq![Token { kind: None, raw: s }]);
    } else {
        lemma_feed_plain(s.drop_last());
        assert(s.drop_last().push(s.last()) =~= s);
        assert(before.step(s.last()).vetted =~= seq![Token { kind: None, raw: s }]);
    }
}

/// The screen `v` with the text `s` in its first row and the cursor behind
/// it; `v` itself where the text is empty.
pub open spec fn plain_screen(v: ViewModel, s: Seq<char>) -> ViewModel {
    if s.len() == 0 {
        v
    } else {
        ViewModel {
            lines: seq![written_line(s, v.style)],
            cursor: Cursor { x: s.len() as u16, ..v.cursor },
            ..v
        }
    }
}

/// One more glyph written behind the text in the first row of a screen that
/// holds nothing else lengthens that text.
pub proof fn lemma_write_glyph_plain(v: ViewModel, s: Seq<char>, c: char)
    requires
        v == ViewModel::initial(v.width, v.height, v.scroll),
        v.height >= 1,
        s.len() < v.width,
    ensures
        write_glyph(plain_screen(v, s), c) == plain_screen(v, s.push(c)),
{
    let before = plain_screen(v, s);
    let m = before.focus();
    let next = s.push(c);
    if s.len() == 0 {
        assert(m.lines =~= seq![Line::fresh()]);
    } else {
        assert(m == before);
    }
    let line = m.current().set(s.len() as int, c, v.style);
    assert(m.current().padding(s.len() as int) =~= Seq::<Glyph>::empty());
    assert(line.glyphs =~= written_line(next, v.style).glyphs);
    assert(m.with_line(0, line).lines =~= seq![written_line(next, v.style)]);
}

/// A printable character is written as a glyph.
pub proof fn lemma_put_char_printable(v: ViewModel, c: char)
    requires
        ' ' <= c && c <= '~',
    ensures
        put_char(v, c) == write_glyph(v, c),
{
    reveal(put_char);
}

/// Printable text written to an empty screen that is wide enough stands in
/// its first row, and the cursor behind it.
pub proof fn lemma_put_text_plain(v: ViewModel, s: Seq<char>)
    requires
        v == ViewModel::initial(v.width, v.height, v.scroll),
        v.height >= 1,
        s.len() <= v.width,
        is_printable_ascii(s),
    ensures
        put_text(v, s) == plain_screen(v, s),
    decreases s.len(),
{
    if s.len() > 0 {
        let init = s.drop_last();
        lemma_put_text_plain(v, init);
        lemma_put_char_printable(plain_screen(v, init), s.last());
        lemma_write_glyph_plain(v, init, s.last());
        assert(init.push(s.last()) =~= s);
    }
}

/// Printable text that is pushed into a new pane which is wide enough and
/// at least one row high is read back from the pane's first row as it was
/// written, and the cursor stands behind it in that row.
pub proof fn lemma_plain_text_round_trip(p: PaneModel, s: Seq<char>)
    requires
        p.view == ViewModel::initial(p.view.width, p.view.height, p.view.scroll),
        p.parser == ParserModel::initial(),
        p.view.height >= 1,
        0 < s.len() <= p.view.width,
        is_printable_ascii(s),
    ensures
        p.push(s).view.lines.len() == 1,
        p.push(s).view.lines[0].plaintext() == s,
        p.push(s).view.cursor.x == s.len(),
        p.push(s).view.cursor.y == 0,
        p.host_output(s) == Seq::<char>::empty(),
{
    assert forall|i: int| 0 <= i < s.len() implies #[trigger] s[i] != ESC by {
        assert(' ' <= s[i]);
    }
    lemma_feed_plain(s);
    lemma_put_text_plain(p.view, s);
    let token = Token { kind: None, raw: s };
    let tokens = seq![token];
    assert(p.tokens(s) == tokens);
    assert(tokens.drop_last() =~= Seq::<Token>::empty());
    assert(tokens.last() == token);
    assert(dispatch_all(p.view, tokens.drop_last()) == p.view);
    assert(dispatch_all(p.view, tokens) == dispatch(p.view, token));
    assert(p.push(s).view == plain_screen(p.view, s));
    assert(p.push(s).view.lines[0].plaintext() =~= s);
    lemma_text_host_plain(s);
    assert(host_all(tokens.drop_last()) =~= Seq::<char>::empty());
    assert(host_all(tokens) == host_all(tokens.drop_last()) + token_host(token));
    assert(host_all(tokens) =~= text_host(s));
}

/// Printable text sends nothing to the host terminal.
pub proof fn lemma_text_host_plain(s: Seq<char>)
    requires
        is_printable_ascii(s),
    ensures
        text_host(s) == Seq::<char>::empty(),
    decreases s.len(),
{
    if s.len() > 0 {
        assert(' ' <= s.last());
        lemma_text_host_plain(s.drop_last());
    }
}

/// Whether the cursor of the screen lies in its bounds and, in `Scroll`
/// mode, the screen holds no more rows than it is high.
pub open spec fn in_bounds(v: ViewModel) -> bool {
    v.wf() && (v.scroll == ScrollMode::Scroll && v.height >= 1 ==> v.lines.len() <= v.height)
}

/// Making the screen ready for writing keeps it in bounds, and the row of
/// the cursor exists afterwards.
pub proof fn lemma_focus_in_bounds(v: ViewModel)
    requires
        in_bounds(v),
    ensures
        in_bounds(v.focus()),
        v.focus().cursor.y < v.focus().lines.len(),
        v.focus().cursor.x == v.cursor.x,
        v.focus().scroll == v.scroll,
        v.focus().height == v.height,
        v.focus().width == v.width,
{
}

/// An erase keeps the screen in bounds.
pub proof fn lemma_clear_in_bounds(v: ViewModel, what: Erase)
    requires
        in_bounds(v),
    ensures
        in_bounds(v.clear(what)),
        v.clear(what).scroll == v.scroll,
        v.clear(what).height == v.height,
        v.clear(what).width == v.width,
{
    lemma_focus_in_bounds(v);
    lemma_focus_in_bounds(v.clear_rows(0, v.cursor.y as int));
}

/// Writing a glyph keeps the screen in bounds.
pub proof fn lemma_write_glyph_in_bounds(v: ViewModel, c: char)
    requires
        in_bounds(v),
    ensures
        in_bounds(write_glyph(v, c)),
        write_glyph(v, c).scroll == v.scroll,
        write_glyph(v, c).height == v.height,
        write_glyph(v, c).width == v.width,
{
    lemma_focus_in_bounds(v);
}

/// A text character keeps the screen in bounds.
pub proof fn lemma_put_char_in_bounds(v: ViewModel, c: char)
    requires
        in_bounds(v),
    ensures
        in_bounds(put_char(v, c)),
        put_char(v, c).scroll == v.scroll,
        put_char(v, c).height == v.height,
        put_char(v, c).width == v.width,
{
    reveal(put_char);
    if c == '\t' {
        let v1 = write_glyph(v, ' ');
        let v2 = write_glyph(v1, ' ');
        let v3 = write_glyph(v2, ' ');
        lemma_write_glyph_in_bounds(v, ' ');
        lemma_write_glyph_in_bounds(v1, ' ');
        lemma_write_glyph_in_bounds(v2, ' ');
        lemma_write_glyph_in_bounds(v3, ' ');
    } else {
        lemma_write_glyph_in_bounds(v, c);
    }
}

/// Whether a control sequence of this kind erases.
pub open spec fn is_erase_kind(kind: ControlKind) -> bool {
    kind == ControlKind::ClearLine || kind == ControlKind::EraseLineBeforeCursor || kind
        == ControlKind::EraseLineAfterCursor || kind == ControlKind::EraseScreen
}

/// Whether a control sequence of this kind moves the cursor by its
/// parameters.
pub open spec fn is_move_kind(kind: ControlKind) -> bool {
    kind == ControlKind::MoveCursor || kind == ControlKind::MoveCursorApp
}

/// What a control sequence does, by its kind: it erases, moves the cursor,
/// or leaves the rows and the cursor's column alone.
pub proof fn lemma_control_cases(v: ViewModel, kind: ControlKind, raw: Seq<char>)
    ensures
        is_erase_kind(kind) ==> control(v, kind, raw) == v.clear(erase_of(raw)),
        is_move_kind(kind) ==> control(v, kind, raw) == move_cursor(v, raw),
        kind == ControlKind::ScrollDown ==> control(v, kind, raw) == v.cursor_up(1),
        kind == ControlKind::ScrollUp ==> control(v, kind, raw) == v.cursor_down(1),
        !is_erase_kind(kind) && !is_move_kind(kind) && kind != ControlKind::ScrollDown && kind
            != ControlKind::ScrollUp ==> control(v, kind, raw) == (ViewModel {
            style: control(v, kind, raw).style,
            ..v
        }),
{
    reveal(control);
}

/// A move of the cursor keeps the screen in bounds.
pub proof fn lemma_move_cursor_in_bounds(v: ViewModel, raw: Seq<char>)
    requires
        in_bounds(v),
    ensures
        in_bounds(move_cursor(v, raw)),
        move_cursor(v, raw).scroll == v.scroll,
        move_cursor(v, raw).height == v.height,
        move_cursor(v, raw).width == v.width,
{
}

/// A control sequence keeps the screen in bounds.
pub proof fn lemma_control_in_bounds(v: ViewModel, kind: ControlKind, raw: Seq<char>)
    requires
        in_bounds(v),
    ensures
        in_bounds(control(v, kind, raw)),
        control(v, kind, raw).scroll == v.scroll,
        control(v, kind, raw).height == v.height,
        control(v, kind, raw).width == v.width,
{
    lemma_control_cases(v, kind, raw);
    if is_erase_kind(kind) {
        lemma_clear_in_bounds(v, erase_of(raw));
    } else if is_move_kind(kind) {
        lemma_move_cursor_in_bounds(v, raw);
    }
}

/// A text keeps the screen in bounds.
pub proof fn lemma_put_text_in_bounds(v: ViewModel, s: Seq<char>)
    requires
        in_bounds(v),
    ensures
        in_bounds(put_text(v, s)),
        put_text(v, s).scroll == v.scroll,
        put_text(v, s).height == v.height,
        put_text(v, s).width == v.width,
    decreases s.len(),
{
    if s.len() > 0 {
        lemma_put_text_in_bounds(v, s.drop_last());
        lemma_put_char_in_bounds(put_text(v, s.drop_last()), s.last());
    }
}

/// Whatever tokens a screen takes, its cursor stays within `[0, width]` and
/// `[0, height]`, and in `Scroll` mode a screen of at least one row never
/// holds more rows than it is high.
pub proof fn lemma_dispatch_in_bounds(v: ViewModel, tokens: Seq<Token>)
    requires
        in_bounds(v),
    ensures
        in_bounds(dispatch_all(v, tokens)),
        dispatch_all(v, tokens).cursor.x <= v.width,
        dispatch_all(v, tokens).cursor.y <= v.height,
        dispatch_all(v, tokens).scroll == v.scroll,
        dispatch_all(v, tokens).height == v.height,
        dispatch_all(v, tokens).width == v.width,
    decreases tokens.len(),
{
    if tokens.len() > 0 {
        let before = dispatch_all(v, tokens.drop_last());
        lemma_dispatch_in_bounds(v, tokens.drop_last());
        match tokens.last().kind {
            None => {
                lemma_put_text_in_bounds(before, tokens.last().raw);
            },
            Some(kind) => {
                lemma_control_in_bounds(before, kind, tokens.last().raw);
            },
        }
    }
}

/// Whatever is pushed to a pane, its cursor stays within `[0, width]` and
/// `[0, height]`, and in `Scroll` mode a pane of at least one row never
/// holds more rows than it is high.
pub proof fn lemma_push_in_bounds(p: PaneModel, s: Seq<char>)
    requires
        in_bounds(p.view),
    ensures
        in_bounds(p.push(s).view),
        p.push(s).view.cursor.x <= p.view.width,
        p.push(s).view.cursor.y <= p.view.height,
{
    lemma_dispatch_in_bounds(p.view, p.tokens(s));
}

/// What a pane shows is never more rows than it is high: in `Scroll` mode
/// the last rows stay, in `Fixed` mode the first, and what goes beyond is
/// dropped. Drawing the pane leaves it with those rows.
pub proof fn lemma_visible_fits(p: PaneModel)
    ensures
        p.view.visible().lines.len() <= p.view.height,
        p.drawn().view.lines.len() <= p.view.height,
        p.view.lines.len() <= p.view.height ==> p.view.visible().lines == p.view.lines,
        p.view.lines.len() > p.view.height && p.view.scroll == ScrollMode::Fixed
            ==> p.view.visible().lines == p.view.lines.take(p.view.height as int),
        p.view.lines.len() > p.view.height && p.view.scroll == ScrollMode::Scroll
            ==> p.view.visible().lines == p.view.lines.skip(p.view.lines.len() - p.view.height),
{
    if p.view.lines.len() <= p.view.height {
        assert(p.view.visible().lines =~= p.view.lines);
    }
}

/// A row that was drawn in a pane at least as wide as the row is long is
/// clean.
pub proof fn lemma_emitted_is_clean(line: Line, width: nat)
    requires
        line.glyphs.len() <= width,
    ensures
        !line.emitted(width).is_dirty(),
        line.emitted(width).emitted(width) == line.emitted(width),
{
    assert(line.emitted(width).emitted(width).glyphs =~= line.emitted(width).glyphs);
}

/// Drawing the first rows that are clean writes nothing.
pub proof fn lemma_render_clean(
    lines: Seq<Line>,
    x: nat,
    y: nat,
    width: nat,
    style: PrintStyle,
    upto: int,
)
    requires
        0 <= upto <= lines.len(),
        forall|k: int| 0 <= k < upto ==> !(#[trigger] lines[k]).is_dirty(),
    ensures
        render_text(lines, x, y, width, style, upto) == Seq::<char>::empty(),
        rendered(lines, width, upto) == lines,
    decreases upto,
{
    if upto > 0 {
        lemma_render_clean(lines, x, y, width, style, upto - 1);
        assert(!lines[upto - 1].is_dirty());
    }
    assert(rendered(lines, width, upto) =~= lines);
}

/// Drawing a pane twice with nothing pushed in between writes nothing the
/// second time and leaves the pane as it was, where no row that the pane
/// shows is longer than the pane is wide.
pub proof fn lemma_drawn_twice(p: PaneModel)
    requires
        forall|k: int|
            0 <= k < p.view.visible().lines.len() ==> (
            #[trigger] p.view.visible().lines[k]).glyphs.len() <= p.view.width,
    ensures
        p.drawn().render_output() == Seq::<char>::empty(),
        p.drawn().drawn() == p.drawn(),
{
    let rows = p.view.visible().lines;
    let width = p.view.width as nat;
    let after = rendered(rows, width, rows.len() as int);
    lemma_visible_fits(p);
    assert forall|k: int| 0 <= k < after.len() implies !(#[trigger] after[k]).is_dirty() by {
        if rows[k].is_dirty() {
            lemma_emitted_is_clean(rows[k], width);
        }
    }
    let q = p.drawn();
    assert(q.view.lines == after);
    assert(q.view.visible().lines =~= after);
    lemma_render_clean(
        after,
        q.x as nat,
        q.y as nat,
        width,
        q.view.style,
        after.len() as int,
    );
}

} // verus!
