//! The streaming parser: it cuts a pane's input into plain text and control
//! sequences, and keeps what is not yet decided for the next feed.

use vstd::prelude::*;
use crate::text::{ESC, chars_of, string_of};
use crate::vt100::{TerminalOutput, Token, VT100, classify, kind_of};

verus! {

/// Whether the parser is inside a control sequence.
#[derive(Clone, Copy, Debug, PartialEq, Eq, Structural)]
pub enum VT100State {
    PlainText,
    FoundEsc,
}

/// What the parser holds: the characters of a sequence that is not yet
/// complete, the tokens that are ready, and whether it is inside a sequence.
pub struct ParserModel {
    pub buffer: Seq<char>,
    pub vetted: Seq<Token>,
    pub in_escape: bool,
}

/// Whether `c`, directly behind an `ESC`, begins a control sequence.
pub open spec fn is_introducer(c: char) -> bool {
    c == '[' || c == '\u{9b}' || c == '>' || c == '=' || c == 'M' || c == 'D' || c == 'k'
}

/// Whether `c`, directly behind an `ESC`, begins a sequence of parameters,
/// intermediates and a final character.
pub open spec fn is_csi_introducer(c: char) -> bool {
    c == '[' || c == '\u{9b}' || c == '>' || c == '=' || c == 'M' || c == 'D'
}

/// A parameter character: `0x30` to `0x3F`.
pub open spec fn is_param_byte(c: char) -> bool {
    '0' <= c && c <= '?'
}

/// An intermediate character: `0x20` to `0x2F`.
pub open spec fn is_intermediate_byte(c: char) -> bool {
    ' ' <= c && c <= '/'
}

/// A character that ends a sequence: `0x40` to `0x7E`, `>` or `=`.
pub open spec fn is_final_byte(c: char) -> bool {
    ('@' <= c && c <= '~') || c == '>' || c == '='
}

/// The first position in `buf[from..to]` that holds no parameter character,
/// and `to` if there is none.
pub open spec fn params_end(buf: Seq<char>, from: int, to: int) -> int
    decreases to - from,
{
    if from >= to || !is_param_byte(buf[from]) {
        from
    } else {
        params_end(buf, from + 1, to)
    }
}

/// Whether `buf[from..to]` holds intermediate characters only.
pub open spec fn all_intermediate(buf: Seq<char>, from: int, to: int) -> bool {
    forall|k: int| from <= k < to ==> is_intermediate_byte(#[trigger] buf[k])
}

/// Whether the characters of `buf` from position `p` to its end are a
/// complete control sequence:
/// - `ESC M` or `ESC D`;
/// - `ESC`, an introducer, parameter characters, intermediate characters,
///   and a final character;
/// - `ESC k`, anything, and `ESC \`.
pub open spec fn is_sequence_at(buf: Seq<char>, p: int) -> bool {
    let n = buf.len() as int;
    0 <= p && p + 2 <= n && buf[p] == ESC && ({
        let intro = buf[p + 1];
        if p + 2 == n {
            intro == 'M' || intro == 'D'
        } else if intro == 'k' {
            n >= 4 && p <= n - 4 && buf[n - 2] == ESC && buf[n - 1] == '\\'
        } else {
            is_csi_introducer(intro) && is_final_byte(buf[n - 1]) && all_intermediate(
                buf,
                params_end(buf, p + 2, n - 1),
                n - 1,
            )
        }
    })
}

/// Whether a complete control sequence begins at position `p` of `buf` or
/// behind it and reaches to the end of `buf`.
pub open spec fn completes_from(buf: Seq<char>, p: int) -> bool
    decreases buf.len() - p,
{
    if p < 0 || p + 2 > buf.len() {
        false
    } else {
        is_sequence_at(buf, p) || completes_from(buf, p + 1)
    }
}

/// Whether `buf` ends in a complete control sequence.
pub open spec fn is_complete_sequence(buf: Seq<char>) -> bool {
    completes_from(buf, 0)
}

/// Whether an `ESC` with an introducer behind it stands at position `p` of
/// `buf` or behind it.
pub open spec fn introduces_from(buf: Seq<char>, p: int) -> bool
    decreases buf.len() - p,
{
    if p < 0 || p + 2 > buf.len() {
        false
    } else {
        (buf[p] == ESC && is_introducer(buf[p + 1])) || introduces_from(buf, p + 1)
    }
}

/// The characters of all the tokens, one token after the other.
pub open spec fn raw_concat(tokens: Seq<Token>) -> Seq<char>
    decreases tokens.len(),
{
    if tokens.len() == 0 {
        Seq::empty()
    } else {
        raw_concat(tokens.drop_last()) + tokens.last().raw
    }
}

/// What each of the tokens holds.
pub open spec fn views(tokens: Seq<TerminalOutput>) -> Seq<Token> {
    Seq::new(tokens.len(), |i: int| tokens[i]@)
}

impl ParserModel {
    /// A parser that has seen nothing.
    pub open spec fn initial() -> ParserModel {
        ParserModel { buffer: Seq::empty(), vetted: Seq::empty(), in_escape: false }
    }

    /// The parser is inside a sequence exactly when it holds characters, the
    /// first of them is the `ESC`, and no token is empty.
    pub open spec fn wf(self) -> bool {
        &&& self.in_escape <==> self.buffer.len() > 0
        &&& self.buffer.len() > 0 ==> self.buffer[0] == ESC
        &&& forall|i: int| 0 <= i < self.vetted.len() ==> (#[trigger] self.vetted[i]).raw.len() > 0
    }

    /// The tokens after the text character `c`: it joins the last token if
    /// that is plain text, and makes a new token otherwise.
    pub open spec fn with_text(self, c: char) -> Seq<Token> {
        if self.vetted.len() > 0 && self.vetted.last().kind is None {
            self.vetted.drop_last().push(
                Token { kind: None, raw: self.vetted.last().raw.push(c) },
            )
        } else {
            self.vetted.push(Token { kind: None, raw: seq![c] })
        }
    }

    /// The parser after the character `c`.
    ///
    /// Outside a sequence, `ESC` opens one and any other character is text.
    /// Inside, the character joins the sequence; then a second character
    /// that is no introducer turns the two into plain text, a sequence that
    /// is complete becomes a token of its kind, and anything else waits.
    pub open spec fn step(self, c: char) -> ParserModel {
        if !self.in_escape {
            if c == ESC {
                ParserModel { buffer: seq![ESC], vetted: self.vetted, in_escape: true }
            } else {
                ParserModel { buffer: Seq::empty(), vetted: self.with_text(c), in_escape: false }
            }
        } else {
            let buf = self.buffer.push(c);
            if buf.len() == 2 && !is_introducer(c) {
                ParserModel {
                    buffer: Seq::empty(),
                    vetted: self.vetted.push(Token { kind: None, raw: buf }),
                    in_escape: false,
                }
            } else if is_complete_sequence(buf) {
                ParserModel {
                    buffer: Seq::empty(),
                    vetted: self.vetted.push(Token { kind: Some(classify(buf)), raw: buf }),
                    in_escape: false,
                }
            } else {
                ParserModel { buffer: buf, vetted: self.vetted, in_escape: true }
            }
        }
    }

    /// The parser after the characters `s`, taken from the left.
    pub open spec fn feed(self, s: Seq<char>) -> ParserModel
        decreases s.len(),
    {
        if s.len() == 0 {
            self
        } else {
            self.feed(s.drop_last()).step(s.last())
        }
    }

    /// The parser once a lone `ESC` that waits has been given up as plain
    /// text. Anything else that waits stays.
    pub open spec fn flushed(self) -> ParserModel {
        if self.buffer == seq![ESC] {
            ParserModel {
                buffer: Seq::empty(),
                vetted: self.vetted.push(Token { kind: None, raw: seq![ESC] }),
                in_escape: false,
            }
        } else {
            self
        }
    }

    /// Whether there is anything to hand out.
    pub open spec fn has_output(self) -> bool {
        self.buffer == seq![ESC] || exists|i: int|
            0 <= i < self.vetted.len() && (#[trigger] self.vetted[i]).raw.len() > 0
    }
}

/// The tokens that the text `s` is cut into by a parser that has seen
/// nothing, a lone `ESC` at the end included.
pub open spec fn parse(s: Seq<char>) -> Seq<Token> {
    ParserModel::initial().feed(s).flushed().vetted
}

/// What is left undecided behind the tokens of [`parse`].
pub open spec fn parse_pending(s: Seq<char>) -> Seq<char> {
    ParserModel::initial().feed(s).flushed().buffer
}

pub struct StreamState {
    buffer: Vec<char>,
    vetted_output: Vec<TerminalOutput>,
    build_state: VT100State,
}

impl View for StreamState {
    type V = ParserModel;

    closed spec fn view(&self) -> ParserModel {
        ParserModel {
            buffer: self.buffer@,
            vetted: views(self.vetted_output@),
            in_escape: self.build_state == VT100State::FoundEsc,
        }
    }
}

impl StreamState {
    /// A parser that has seen nothing.
    pub fn new() -> (s: StreamState)
        ensures
            s@ == ParserModel::initial(),
            s@.wf(),
    {
        let s = StreamState {
            buffer: Vec::new(),
            vetted_output: Vec::new(),
            build_state: VT100State::PlainText,
        };
        assert(s@.vetted =~= Seq::empty());
        s
    }

    /// Feeds the characters of `stdin` to the parser.
    pub fn push(&mut self, stdin: &str)
        requires
            old(self)@.wf(),
        ensures
            final(self)@ == old(self)@.feed(stdin@),
            final(self)@.wf(),
    {
        let chars = chars_of(stdin);
        let mut i: usize = 0;
        while i < chars.len()
            invariant
                i <= chars.len(),
                chars@ == stdin@,
                self@.wf(),
                self@ == old(self)@.feed(stdin@.take(i as int)),
            decreases chars.len() - i,
        {
            self.push_char(chars[i]);
            i += 1;
            assert(stdin@.take(i as int).drop_last() =~= stdin@.take(i - 1));
        }
        assert(stdin@.take(chars.len() as int) =~= stdin@);
    }

    /// Feeds one character to the parser.
    pub fn push_char(&mut self, c: char)
        requires
            old(self)@.wf(),
        ensures
            final(self)@ == old(self)@.step(c),
            final(self)@.wf(),
    {
        match self.build_state {
            VT100State::PlainText => {
                if c == ESC {
                    self.buffer.push(c);
                    self.build_state = VT100State::FoundEsc;
                    assert(self.buffer@ =~= seq![ESC]);
                } else {
                    self.push_text(c);
                }
            },
            VT100State::FoundEsc => {
                self.buffer.push(c);
                let not_an_esc_seq = self.buffer.len() == 2 && !introduces(c);
                proof {
                    if not_an_esc_seq {
                        lemma_no_introducer_no_sequence(self.buffer@);
                    }
                }
                if not_an_esc_seq || self.is_esc_seq_complete() {
                    self.consume_buffer();
                    self.build_state = VT100State::PlainText;
                }
            },
        }
    }

    /// Adds the text character `c` to the tokens.
    fn push_text(&mut self, c: char)
        requires
            old(self)@.wf(),
            !old(self)@.in_escape,
        ensures
            final(self)@ == (ParserModel {
                buffer: Seq::empty(),
                vetted: old(self)@.with_text(c),
                in_escape: false,
            }),
            final(self)@.wf(),
    {
        let ghost before = self.vetted_output@;
        assert(self.buffer@ =~= Seq::empty());
        match self.vetted_output.pop() {
            Some(TerminalOutput::Plaintext(mut text)) => {
                let ghost old_text = text@;
                text.push(c);
                self.vetted_output.push(TerminalOutput::Plaintext(text));
                assert(views(before).last() == before.last()@);
                assert(views(self.vetted_output@) =~= views(before).drop_last().push(
                    Token { kind: None, raw: old_text.push(c) },
                ));
            },
            Some(other) => {
                assert(views(before).last() == before.last()@);
                self.vetted_output.push(other);
                assert(self.vetted_output@ =~= before);
                let mut text = String::new();
                text.push(c);
                assert(text@ =~= seq![c]);
                self.vetted_output.push(TerminalOutput::Plaintext(text));
                assert(views(self.vetted_output@) =~= views(before).push(
                    Token { kind: None, raw: seq![c] },
                ));
            },
            None => {
                let mut text = String::new();
                text.push(c);
                assert(text@ =~= seq![c]);
                self.vetted_output.push(TerminalOutput::Plaintext(text));
                assert(views(self.vetted_output@) =~= views(before).push(
                    Token { kind: None, raw: seq![c] },
                ));
            },
        }
    }

    /// Turns what waits into a token: a control sequence if it is complete,
    /// plain text otherwise. The caller sets the state.
    fn consume_buffer(&mut self)
        requires
            old(self).buffer@.len() > 0,
        ensures
            final(self).buffer@ == Seq::<char>::empty(),
            final(self).build_state == old(self).build_state,
            views(final(self).vetted_output@) == views(old(self).vetted_output@).push(
                Token {
                    kind: if is_complete_sequence(old(self).buffer@) {
                        Some(classify(old(self).buffer@))
                    } else {
                        None
                    },
                    raw: old(self).buffer@,
                },
            ),
    {
        let ghost before = self.vetted_output@;
        let text = string_of(&self.buffer);
        if self.is_esc_seq_complete() {
            let kind = kind_of(&self.buffer);
            self.vetted_output.push(TerminalOutput::CSI(VT100::of(kind, text)));
        } else {
            self.vetted_output.push(TerminalOutput::Plaintext(text));
        }
        assert(views(self.vetted_output@) =~= views(before).push(self.vetted_output@.last()@));
        self.buffer.clear();
    }

    /// Whether what waits holds an `ESC` with an introducer behind it.
    pub fn is_esc_seq(&self) -> (r: bool)
        ensures
            r == introduces_from(self@.buffer, 0),
    {
        let n = self.buffer.len();
        let mut p: usize = 0;
        while n >= 2 && p <= n - 2
            invariant
                n == self.buffer.len(),
                p <= n,
                introduces_from(self.buffer@, 0) == introduces_from(self.buffer@, p as int),
            decreases n - p,
        {
            if self.buffer[p] == ESC && introduces(self.buffer[p + 1]) {
                return true;
            }
            p += 1;
        }
        false
    }

    /// Whether what waits ends in a complete control sequence.
    pub fn is_esc_seq_complete(&self) -> (r: bool)
        ensures
            r == is_complete_sequence(self@.buffer),
    {
        let n = self.buffer.len();
        let mut p: usize = 0;
        while n >= 2 && p <= n - 2
            invariant
                n == self.buffer.len(),
                p <= n,
                completes_from(self.buffer@, 0) == completes_from(self.buffer@, p as int),
            decreases n - p,
        {
            if self.buffer[p] == ESC && sequence_at(&self.buffer, p) {
                return true;
            }
            p += 1;
        }
        false
    }

    /// Whether `consume` would hand out anything.
    pub fn is_complete(&self) -> (r: bool)
        ensures
            r == self@.has_output(),
    {
        if self.buffer.len() == 1 && self.buffer[0] == ESC {
            assert(self.buffer@ =~= seq![ESC]);
            return true;
        }
        let mut i: usize = 0;
        while i < self.vetted_output.len()
            invariant
                i <= self.vetted_output.len(),
                self@.buffer != seq![ESC],
                forall|k: int| 0 <= k < i ==> (#[trigger] self@.vetted[k]).raw.len() == 0,
            decreases self.vetted_output.len() - i,
        {
            if !self.vetted_output[i].is_empty() {
                assert(self@.vetted[i as int].raw.len() > 0);
                return true;
            }
            i += 1;
        }
        false
    }

    /// Hands out the tokens that are ready, in order, and keeps none of them.
    /// A lone `ESC` that waits goes out as plain text; anything else that
    /// waits stays for the next feed.
    pub fn consume(&mut self) -> (out: Vec<TerminalOutput>)
        requires
            old(self)@.wf(),
        ensures
            views(out@) == old(self)@.flushed().vetted,
            final(self)@ == (ParserModel { vetted: Seq::empty(), ..old(self)@.flushed() }),
            final(self)@.wf(),
    {
        if self.buffer.len() == 1 && self.buffer[0] == ESC {
            assert(self.buffer@ =~= seq![ESC]);
            proof {
                assert(!is_complete_sequence(self.buffer@)) by {
                    reveal_with_fuel(completes_from, 2);
                }
            }
            self.consume_buffer();
            self.build_state = VT100State::PlainText;
        }
        let mut out: Vec<TerminalOutput> = Vec::new();
        std::mem::swap(&mut out, &mut self.vetted_output);
        assert(views(self.vetted_output@) =~= Seq::empty());
        out
    }
}

/// Two characters of which the second is no introducer are no control
/// sequence.
pub proof fn lemma_no_introducer_no_sequence(buf: Seq<char>)
    requires
        buf.len() == 2,
        !is_introducer(buf[1]),
    ensures
        !is_complete_sequence(buf),
{
    reveal_with_fuel(completes_from, 3);
}

/// Whether `c`, directly behind an `ESC`, begins a control sequence.
pub fn introduces(c: char) -> (r: bool)
    ensures
        r == is_introducer(c),
{
    c == '[' || c == '\u{9b}' || c == '>' || c == '=' || c == 'M' || c == 'D' || c == 'k'
}

/// Whether a complete control sequence reaches from position `p` of `buf` to
/// its end.
fn sequence_at(buf: &Vec<char>, p: usize) -> (r: bool)
    requires
        p + 2 <= buf.len(),
        buf[p as int] == ESC,
    ensures
        r == is_sequence_at(buf@, p as int),
{
    let n = buf.len();
    let intro = buf[p + 1];
    if p + 2 == n {
        intro == 'M' || intro == 'D'
    } else if intro == 'k' {
        n >= 4 && p <= n - 4 && buf[n - 2] == ESC && buf[n - 1] == '\\'
    } else {
        let last = buf[n - 1];
        let csi = intro == '[' || intro == '\u{9b}' || intro == '>' || intro == '=' || intro == 'M'
            || intro == 'D';
        let fin = ('@' <= last && last <= '~') || last == '>' || last == '=';
        if !csi || !fin {
            return false;
        }
        let mut q: usize = p + 2;
        while q < n - 1 && '0' <= buf[q] && buf[q] <= '?'
            invariant
                p + 2 <= q <= n - 1,
                n == buf.len(),
                params_end(buf@, p + 2, n - 1) == params_end(buf@, q as int, n - 1),
            decreases n - q,
        {
            q += 1;
        }
        let ghost split = q;
        assert(params_end(buf@, q as int, n - 1) == q);
        while q < n - 1
            invariant
                split <= q <= n - 1,
                n == buf.len(),
                p + 2 < n,
                buf@[p + 1] != 'k',
                split == params_end(buf@, p + 2, n - 1),
                all_intermediate(buf@, split as int, q as int),
            decreases n - q,
        {
            if !(' ' <= buf[q] && buf[q] <= '/') {
                assert(!is_intermediate_byte(buf@[q as int]));
                return false;
            }
            q += 1;
        }
        true
    }
}

} // verus!
