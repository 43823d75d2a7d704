//! What holds of the parser whatever it is fed: it loses no character.

use vstd::prelude::*;
use crate::stream_state::{ParserModel, parse, parse_pending, raw_concat};
use crate::text::ESC;
use crate::vt100::Token;

verus! {

/// The characters of the tokens with one more token are those of the tokens
/// and then those of the new one.
pub proof fn lemma_raw_concat_push(tokens: Seq<Token>, token: Token)
    ensures
        raw_concat(tokens.push(token)) == raw_concat(tokens) + token.raw,
{
    assert(tokens.push(token).drop_last() =~= tokens);
}

/// A step of the parser keeps it well formed and loses nothing: the tokens'
/// characters and what waits are, together, what they were before the step,
/// and the character taken.
pub proof fn lemma_step_lossless(m: ParserModel, c: char)
    requires
        m.wf(),
    ensures
        m.step(c).wf(),
        raw_concat(m.step(c).vetted) + m.step(c).buffer == raw_concat(m.vetted) + m.buffer + seq![
            c,
        ],
{
    let n = m.step(c);
    if !m.in_escape {
        assert(m.buffer =~= Seq::<char>::empty());
        if c == ESC {
            assert(raw_concat(n.vetted) + n.buffer =~= raw_concat(m.vetted) + m.buffer + seq![c]);
        } else {
            if m.vetted.len() > 0 && m.vetted.last().kind is None {
                let merged = Token { kind: None, raw: m.vetted.last().raw.push(c) };
                lemma_raw_concat_push(m.vetted.drop_last(), merged);
                assert(raw_concat(n.vetted) + n.buffer =~= raw_concat(m.vetted) + m.buffer + seq![
                    c,
                ]);
            } else {
                lemma_raw_concat_push(m.vetted, Token { kind: None, raw: seq![c] });
                assert(raw_concat(n.vetted) + n.buffer =~= raw_concat(m.vetted) + m.buffer + seq![
                    c,
                ]);
            }
        }
    } else {
        let buf = m.buffer.push(c);
        if n.buffer.len() == 0 {
            lemma_raw_concat_push(m.vetted, n.vetted.last());
            assert(n.vetted.drop_last() =~= m.vetted);
            assert(raw_concat(n.vetted) + n.buffer =~= raw_concat(m.vetted) + m.buffer + seq![c]);
        } else {
            assert(raw_concat(n.vetted) + n.buffer =~= raw_concat(m.vetted) + m.buffer + seq![c]);
        }
    }
}

/// Feeding a text loses nothing: the tokens' characters and what waits are,
/// together, what they were before, and the text.
pub proof fn lemma_feed_lossless(m: ParserModel, s: Seq<char>)
    requires
        m.wf(),
    ensures
        m.feed(s).wf(),
        raw_concat(m.feed(s).vetted) + m.feed(s).buffer == raw_concat(m.vetted) + m.buffer + s,
    decreases s.len(),
{
    if s.len() == 0 {
        assert(raw_concat(m.vetted) + m.buffer + s =~= raw_concat(m.vetted) + m.buffer);
    } else {
        let before = m.feed(s.drop_last());
        lemma_feed_lossless(m, s.drop_last());
        lemma_step_lossless(before, s.last());
        assert(raw_concat(m.vetted) + m.buffer + s.drop_last() + seq![s.last()] =~= raw_concat(
            m.vetted,
        ) + m.buffer + s);
    }
}

/// Giving up a lone `ESC` that waits loses nothing.
pub proof fn lemma_flush_lossless(m: ParserModel)
    requires
        m.wf(),
    ensures
        m.flushed().wf(),
        raw_concat(m.flushed().vetted) + m.flushed().buffer == raw_concat(m.vetted) + m.buffer,
{
    if m.buffer == seq![ESC] {
        lemma_raw_concat_push(m.vetted, Token { kind: None, raw: seq![ESC] });
        assert(raw_concat(m.flushed().vetted) + m.flushed().buffer =~= raw_concat(m.vetted)
            + m.buffer);
    }
}

/// Parsing is lossless: the characters of the tokens that a text is cut
/// into, followed by what is left undecided, are the text. So a text that
/// leaves nothing undecided is the concatenation of its tokens.
pub proof fn lemma_parse_lossless(s: Seq<char>)
    ensures
        raw_concat(parse(s)) + parse_pending(s) == s,
        parse_pending(s).len() == 0 ==> raw_concat(parse(s)) == s,
{
    let start = ParserModel::initial();
    lemma_feed_lossless(start, s);
    lemma_flush_lossless(start.feed(s));
    assert(raw_concat(start.vetted) =~= Seq::<char>::empty());
    assert(raw_concat(start.vetted) + start.buffer + s =~= s);
    if parse_pending(s).len() == 0 {
        assert(raw_concat(parse(s)) + parse_pending(s) =~= raw_concat(parse(s)));
    }
}

/// Feeding one text after another is feeding the two as one.
pub proof fn lemma_feed_append(m: ParserModel, a: Seq<char>, b: Seq<char>)
    ensures
        m.feed(a + b) == m.feed(a).feed(b),
    decreases b.len(),
{
    if b.len() == 0 {
        assert(a + b =~= a);
    } else {
        lemma_feed_append(m, a, b.drop_last());
        assert((a + b).drop_last() =~= a + b.drop_last());
        assert((a + b).last() == b.last());
    }
}

} // verus!
