//! What the style sequences that this crate writes do when they come back
//! as input: the parser takes each as one SGR sequence, and a pane that is
//! pushed them changes its style as they say, and nothing else.

use vstd::prelude::*;
use crate::pane::{PaneModel, control, dispatch_all, host_all};
use crate::parser_proofs::lemma_feed_append;
use crate::stream_state::{
    ParserModel, all_intermediate, completes_from, is_complete_sequence, is_final_byte,
    is_introducer, is_param_byte, is_sequence_at, params_end,
};
use crate::style::{
    PrintStyle, concat_all, flag_code, is_param_char, join_codes, push_when, sgr,
};
use crate::style_proofs::{lemma_diff_replays, lemma_join_codes_chars};
use crate::text::ESC;
use crate::view_port::ViewModel;
use crate::vt100::{ControlKind, Token, classify};

verus! {

/// Whether `piece` is an SGR sequence written from at least one parameter.
pub open spec fn is_written_sgr(piece: Seq<char>) -> bool {
    exists|codes: Seq<u8>| codes.len() > 0 && piece == #[trigger] sgr(codes)
}

/// The SGR tokens with the characters of the `pieces`.
pub open spec fn sgr_tokens(pieces: Seq<Seq<char>>) -> Seq<Token> {
    Seq::new(pieces.len(), |i: int| Token { kind: Some(ControlKind::SGR), raw: pieces[i] })
}

/// No complete control sequence begins at position `p` or behind it in a
/// text that holds no `ESC` there.
pub proof fn lemma_no_escape_no_sequence(buf: Seq<char>, p: int)
    requires
        0 <= p,
        forall|i: int| p <= i < buf.len() ==> #[trigger] buf[i] != ESC,
    ensures
        !completes_from(buf, p),
    decreases buf.len() - p,
{
    if p + 2 <= buf.len() {
        assert(buf[p] != ESC);
        lemma_no_escape_no_sequence(buf, p + 1);
    }
}

/// An `ESC [` with parameter characters behind it is no complete control
/// sequence.
pub proof fn lemma_open_sequence(body: Seq<char>)
    requires
        forall|i: int| 0 <= i < body.len() ==> is_param_char(#[trigger] body[i]),
    ensures
        !is_complete_sequence(seq![ESC, '['] + body),
{
    let buf = seq![ESC, '['] + body;
    assert forall|i: int| 1 <= i < buf.len() implies #[trigger] buf[i] != ESC by {
        if i >= 2 {
            assert(buf[i] == body[i - 2]);
            assert(is_param_char(body[i - 2]));
        }
    }
    lemma_no_escape_no_sequence(buf, 1);
    if body.len() > 0 {
        assert(buf.last() == body.last());
        assert(is_param_char(body[body.len() - 1]));
        assert(!is_final_byte(buf[buf.len() - 1]));
    }
    assert(!is_sequence_at(buf, 0));
}

/// The parameter characters of a sequence reach up to its last character.
pub proof fn lemma_params_reach(buf: Seq<char>, from: int, to: int)
    requires
        0 <= from <= to <= buf.len(),
        forall|i: int| from <= i < to ==> is_param_byte(#[trigger] buf[i]),
    ensures
        params_end(buf, from, to) == to,
    decreases to - from,
{
    if from < to {
        lemma_params_reach(buf, from + 1, to);
    }
}

/// A written SGR sequence is a complete control sequence, and of the SGR
/// kind.
pub proof fn lemma_written_sgr_complete(codes: Seq<u8>)
    requires
        codes.len() > 0,
    ensures
        is_complete_sequence(sgr(codes)),
        classify(sgr(codes)) == ControlKind::SGR,
{
    let body = join_codes(codes);
    let buf = sgr(codes);
    lemma_join_codes_chars(codes);
    let n = buf.len() as int;
    assert(buf[0] == ESC && buf[1] == '[' && buf[n - 1] == 'm');
    assert forall|i: int| 2 <= i < n - 1 implies is_param_byte(#[trigger] buf[i]) by {
        assert(buf[i] == body[i - 2]);
        assert(is_param_char(body[i - 2]));
    }
    lemma_params_reach(buf, 2, n - 1);
    assert(all_intermediate(buf, n - 1, n - 1));
    assert(is_sequence_at(buf, 0));
    assert(buf != seq![ESC, 'M']);
    assert(buf != seq![ESC, 'D']);
}

/// A parser outside a sequence that is fed `ESC [` and parameter characters
/// waits with them.
pub proof fn lemma_feed_open_sequence(m: ParserModel, body: Seq<char>)
    requires
        m.wf(),
        !m.in_escape,
        forall|i: int| 0 <= i < body.len() ==> is_param_char(#[trigger] body[i]),
    ensures
        m.feed(seq![ESC, '['] + body) == (ParserModel {
            buffer: seq![ESC, '['] + body,
            vetted: m.vetted,
            in_escape: true,
        }),
    decreases body.len(),
{
    let text = seq![ESC, '['] + body;
    if body.len() == 0 {
        let one = seq![ESC];
        assert(text.drop_last() =~= one);
        assert(one.drop_last() =~= Seq::<char>::empty());
        assert(m.feed(one.drop_last()) == m);
        assert(m.feed(one) == m.step(ESC));
        assert(m.buffer =~= Seq::<char>::empty());
        let waiting = m.step(ESC);
        assert(waiting.buffer.push('[') =~= text);
        lemma_open_sequence(body);
        assert(is_introducer('['));
    } else {
        let init = body.drop_last();
        lemma_feed_open_sequence(m, init);
        assert(text.drop_last() =~= seq![ESC, '['] + init);
        assert(text.last() == body.last());
        let waiting = m.feed(text.drop_last());
        assert(waiting.buffer.push(body.last()) =~= text);
        lemma_open_sequence(body);
    }
}

/// A parser outside a sequence makes one SGR token of a written SGR
/// sequence, and is outside a sequence again.
pub proof fn lemma_feed_written_sgr(m: ParserModel, codes: Seq<u8>)
    requires
        m.wf(),
        !m.in_escape,
        codes.len() > 0,
    ensures
        m.feed(sgr(codes)) == (ParserModel {
            buffer: Seq::empty(),
            vetted: m.vetted.push(Token { kind: Some(ControlKind::SGR), raw: sgr(codes) }),
            in_escape: false,
        }),
{
    let body = join_codes(codes);
    let text = sgr(codes);
    lemma_join_codes_chars(codes);
    lemma_feed_open_sequence(m, body);
    lemma_written_sgr_complete(codes);
    assert(text.drop_last() =~= seq![ESC, '['] + body);
    assert(text.last() == 'm');
    let waiting = m.feed(text.drop_last());
    assert(waiting.buffer.push('m') =~= text);
}

/// A parser outside a sequence makes one SGR token of each of the written
/// SGR sequences that it is fed one after the other.
pub proof fn lemma_feed_written_pieces(m: ParserModel, pieces: Seq<Seq<char>>)
    requires
        m.wf(),
        !m.in_escape,
        forall|i: int| 0 <= i < pieces.len() ==> is_written_sgr(#[trigger] pieces[i]),
    ensures
        m.feed(concat_all(pieces)) == (ParserModel {
            buffer: Seq::empty(),
            vetted: m.vetted + sgr_tokens(pieces),
            in_escape: false,
        }),
    decreases pieces.len(),
{
    if pieces.len() == 0 {
        assert(m.buffer =~= Seq::<char>::empty());
        assert(m.vetted + sgr_tokens(pieces) =~= m.vetted);
    } else {
        let init = pieces.drop_last();
        let last = pieces.last();
        lemma_feed_written_pieces(m, init);
        lemma_feed_append(m, concat_all(init), last);
        let before = m.feed(concat_all(init));
        assert(is_written_sgr(pieces[pieces.len() - 1]));
        let codes = choose|codes: Seq<u8>| codes.len() > 0 && last == #[trigger] sgr(codes);
        assert forall|i: int| 0 <= i < before.vetted.len() implies (
        #[trigger] before.vetted[i]).raw.len() > 0 by {
            if i >= m.vetted.len() {
                let piece = init[i - m.vetted.len()];
                assert(is_written_sgr(init[i - m.vetted.len()]));
            }
        }
        lemma_feed_written_sgr(before, codes);
        assert((m.vetted + sgr_tokens(init)).push(
            Token { kind: Some(ControlKind::SGR), raw: last },
        ) =~= m.vetted + sgr_tokens(pieces));
    }
}

/// SGR tokens that can be applied change the style of a screen as they say,
/// and nothing else of it, and send nothing to the host terminal.
pub proof fn lemma_dispatch_sgr_tokens(v: ViewModel, pieces: Seq<Seq<char>>, reached: PrintStyle)
    requires
        v.style.replay(pieces) == Some(reached),
    ensures
        dispatch_all(v, sgr_tokens(pieces)) == (ViewModel { style: reached, ..v }),
        host_all(sgr_tokens(pieces)) == Seq::<char>::empty(),
    decreases pieces.len(),
{
    let tokens = sgr_tokens(pieces);
    if pieces.len() > 0 {
        let init = pieces.drop_last();
        let before = v.style.replay(init);
        assert(before is Some);
        lemma_dispatch_sgr_tokens(v, init, before->0);
        assert(tokens.drop_last() =~= sgr_tokens(init));
        assert(tokens.last() == (Token { kind: Some(ControlKind::SGR), raw: pieces.last() }));
        reveal(control);
        assert(host_all(tokens) =~= Seq::<char>::empty());
    }
}

/// Each of the sequences that take a terminal from one style to another is
/// an SGR sequence written from at least one parameter.
pub proof fn lemma_diff_sequences_written(a: PrintStyle, b: PrintStyle)
    ensures
        forall|i: int|
            0 <= i < a.diff_sequences(b).len() ==> is_written_sgr(#[trigger] a.diff_sequences(b)[i]),
{
    let p0 = Seq::<Seq<char>>::empty();
    let p1 = push_when(p0, a.foreground != b.foreground, b.fg_codes());
    let p2 = push_when(p1, a.background != b.background, b.bg_codes());
    let p3 = push_when(p2, a.bold_after_colors(b) != b.bold, seq![flag_code(b.bold, 1, 22)]);
    let p4 = push_when(p3, a.underline != b.underline, seq![flag_code(b.underline, 4, 24)]);
    let p5 = push_when(p4, a.blink != b.blink, seq![flag_code(b.blink, 5, 25)]);
    let p6 = push_when(p5, a.italicized != b.italicized, seq![flag_code(b.italicized, 3, 23)]);
    let p7 = push_when(p6, a.invert != b.invert, seq![flag_code(b.invert, 7, 27)]);
    lemma_push_when_written(p0, a.foreground != b.foreground, b.fg_codes());
    lemma_push_when_written(p1, a.background != b.background, b.bg_codes());
    lemma_push_when_written(
        p2,
        a.bold_after_colors(b) != b.bold,
        seq![flag_code(b.bold, 1, 22)],
    );
    lemma_push_when_written(p3, a.underline != b.underline, seq![flag_code(b.underline, 4, 24)]);
    lemma_push_when_written(p4, a.blink != b.blink, seq![flag_code(b.blink, 5, 25)]);
    lemma_push_when_written(
        p5,
        a.italicized != b.italicized,
        seq![flag_code(b.italicized, 3, 23)],
    );
    lemma_push_when_written(p6, a.invert != b.invert, seq![flag_code(b.invert, 7, 27)]);
    assert(a.diff_sequences(b) == p7);
}

/// One more written SGR sequence behind written SGR sequences leaves
/// written SGR sequences.
pub proof fn lemma_push_when_written(pieces: Seq<Seq<char>>, cond: bool, codes: Seq<u8>)
    requires
        codes.len() > 0,
        forall|i: int| 0 <= i < pieces.len() ==> is_written_sgr(#[trigger] pieces[i]),
    ensures
        forall|i: int|
            0 <= i < push_when(pieces, cond, codes).len() ==> is_written_sgr(
                #[trigger] push_when(pieces, cond, codes)[i],
            ),
{
    let next = push_when(pieces, cond, codes);
    assert forall|i: int| 0 <= i < next.len() implies is_written_sgr(#[trigger] next[i]) by {
        if i < pieces.len() {
            assert(next[i] == pieces[i]);
        } else {
            assert(next[i] == sgr(codes));
        }
    }
}

/// A pane that is pushed what `diff_str` writes to get from its style to
/// style `b` is in style `b` afterwards. Nothing else of the pane changes,
/// and nothing goes to the host terminal. It holds of a pane whose parser
/// waits for nothing.
pub proof fn lemma_pushed_diff_restyles(p: PaneModel, b: PrintStyle)
    requires
        p.parser == ParserModel::initial(),
    ensures
        p.push(p.view.style.diff_text(b)) == (PaneModel {
            view: ViewModel { style: b, ..p.view },
            ..p
        }),
        p.host_output(p.view.style.diff_text(b)) == Seq::<char>::empty(),
{
    let a = p.view.style;
    let pieces = a.diff_sequences(b);
    lemma_diff_sequences_written(a, b);
    lemma_feed_written_pieces(p.parser, pieces);
    lemma_diff_replays(a, b);
    lemma_dispatch_sgr_tokens(p.view, pieces, b);
    let fed = p.parser.feed(a.diff_text(b));
    assert(fed.vetted =~= sgr_tokens(pieces));
    assert(fed.flushed() == fed);
    assert(p.tokens(a.diff_text(b)) == sgr_tokens(pieces));
}

} // verus!
