//! A text with control sequences in it, addressed by the characters that
//! show.

use vstd::prelude::*;
use crate::text::{ESC, chars_of, string_of};

verus! {

/// A parameter character of a control sequence: `0x30` to `0x3F`.
pub open spec fn is_param(c: char) -> bool {
    '0' <= c && c <= '?'
}

/// An intermediate character of a control sequence: `0x20` to `0x2F`.
pub open spec fn is_intermediate(c: char) -> bool {
    ' ' <= c && c <= '/'
}

/// A character that ends a control sequence: `0x40` to `0x7E`.
pub open spec fn is_final(c: char) -> bool {
    '@' <= c && c <= '~'
}

/// The first position at or behind `from` that holds no parameter
/// character.
pub open spec fn skip_params(s: Seq<char>, from: int) -> int
    decreases s.len() - from,
{
    if from < 0 || from >= s.len() || !is_param(s[from]) {
        from
    } else {
        skip_params(s, from + 1)
    }
}

/// The first position at or behind `from` that holds no intermediate
/// character.
pub open spec fn skip_intermediates(s: Seq<char>, from: int) -> int
    decreases s.len() - from,
{
    if from < 0 || from >= s.len() || !is_intermediate(s[from]) {
        from
    } else {
        skip_intermediates(s, from + 1)
    }
}

/// How long the introducer of a control sequence at position `p` is: 2 for
/// `ESC [`, 1 for the single character `0x9B`, and 0 where there is none.
pub open spec fn introducer_len(s: Seq<char>, p: int) -> int {
    if 0 <= p && p + 1 < s.len() && s[p] == ESC && s[p + 1] == '[' {
        2
    } else if 0 <= p < s.len() && s[p] == '\u{9b}' {
        1
    } else {
        0
    }
}

/// Where the control sequence that begins at position `p` ends, and `p`
/// where none begins there: an introducer, parameter characters,
/// intermediate characters and a final character.
pub open spec fn sequence_end(s: Seq<char>, p: int) -> int {
    let body = p + introducer_len(s, p);
    let last = skip_intermediates(s, skip_params(s, body));
    if introducer_len(s, p) > 0 && last < s.len() && is_final(s[last]) {
        last + 1
    } else {
        p
    }
}

/// Where the run of control sequences that begins at position `p` ends, and
/// `p` where none begins there.
pub open spec fn run_end(s: Seq<char>, p: int) -> int
    decreases s.len() - p,
{
    let e = sequence_end(s, p);
    if p < e <= s.len() {
        run_end(s, e)
    } else {
        p
    }
}

/// The runs of control sequences in `s` from position `p` on, each by its
/// start and its end, from the left.
pub open spec fn runs_from(s: Seq<char>, p: int) -> Seq<(int, int)>
    decreases s.len() - p,
{
    if p < 0 || p >= s.len() {
        Seq::empty()
    } else {
        let e = run_end(s, p);
        if p < e <= s.len() {
            seq![(p, e)] + runs_from(s, e)
        } else {
            runs_from(s, p + 1)
        }
    }
}

/// The characters of `s` from position `p` on that belong to no control
/// sequence.
pub open spec fn shown_from(s: Seq<char>, p: int) -> Seq<char>
    decreases s.len() - p,
{
    if p < 0 || p >= s.len() {
        Seq::empty()
    } else {
        let e = run_end(s, p);
        if p < e <= s.len() {
            shown_from(s, e)
        } else {
            seq![s[p]] + shown_from(s, p + 1)
        }
    }
}

/// The positions from `from` up to and with `to`.
pub open spec fn positions(from: int, to: int) -> Seq<usize> {
    Seq::new(
        if to >= from {
            (to - from + 1) as nat
        } else {
            0
        },
        |i: int| (from + i) as usize,
    )
}

/// Under which position of `s` each character that shows is found: the
/// positions up to and with the start of the last run of control sequences,
/// and then those behind the character that follows the first run. A
/// character that follows a run is found under the start of the run, so
/// that it takes its control sequences along.
pub open spec fn index_map_of(s: Seq<char>) -> Seq<usize> {
    let runs = runs_from(s, 0);
    if s.len() == 0 {
        Seq::empty()
    } else if runs.len() == 0 {
        positions(0, s.len() - 1)
    } else {
        positions(0, runs.last().0) + positions(runs[0].1 + 1, s.len() - 1)
    }
}

/// How far a cut has come: how many characters it has counted, and where
/// the last run of control sequences that it passed ends.
pub struct CutState {
    pub captured: int,
    pub end: int,
}

/// The cut after the run of control sequences `run`, on the way to `n`
/// characters. A cut that has counted all but one of them passes no more
/// runs. Otherwise it counts the text between the last run and this one,
/// or, where that would reach `n`, by how much it would go beyond.
pub open spec fn cut_step(state: CutState, run: (int, int), n: int) -> CutState {
    if state.captured + 1 < n {
        let block = run.0 - state.end;
        let gain = if state.captured + block >= n {
            state.captured + block - n
        } else {
            block
        };
        CutState { captured: state.captured + gain, end: run.1 }
    } else {
        state
    }
}

/// The cut after the first `upto` of the runs.
pub open spec fn cut_after(runs: Seq<(int, int)>, n: int, upto: int) -> CutState
    decreases upto,
{
    if upto <= 0 {
        CutState { captured: 0, end: 0 }
    } else {
        cut_step(cut_after(runs, n, upto - 1), runs[upto - 1], n)
    }
}

/// Where a cut of `n` characters ends in `s`: at the end of a text that is
/// no longer, at `n` in a text without control sequences, and else behind
/// the last run that the cut passed, moved on by the characters that are
/// still missing.
pub open spec fn cut_end(s: Seq<char>, n: int) -> int {
    let runs = runs_from(s, 0);
    if n >= s.len() {
        s.len() as int
    } else if runs.len() == 0 {
        n
    } else {
        let state = cut_after(runs, n, runs.len() as int);
        if state.captured < n {
            state.end + n - state.captured
        } else {
            state.end
        }
    }
}

/// What a text with control sequences holds: its characters, and the index
/// map that was made for them.
pub struct StyledText {
    pub chars: Seq<char>,
    pub index_map: Seq<usize>,
}

/// Where the character that shows under position `at` of the index map
/// stands: behind the run of control sequences that begins there.
pub open spec fn shown_position(s: Seq<char>, at: int) -> int {
    run_end(s, at)
}

impl StyledText {
    /// The text after the character that shows at `index` was replaced by
    /// `c`. A text that is too short is first filled up with spaces, and
    /// its index map made anew. The character stands behind the control
    /// sequences that the index map leads to; where nothing stands there,
    /// `c` is appended.
    pub open spec fn set(self, index: int, c: char) -> StyledText {
        let padded = if index < self.index_map.len() {
            self
        } else {
            let chars = self.chars + Seq::new(
                (index + 1 - self.index_map.len()) as nat,
                |i: int| ' ',
            );
            StyledText { chars, index_map: index_map_of(chars) }
        };
        if index < padded.index_map.len() {
            let at = shown_position(padded.chars, padded.index_map[index] as int);
            if at < padded.chars.len() {
                StyledText { chars: padded.chars.update(at, c), ..padded }
            } else {
                StyledText { chars: padded.chars.push(c), ..padded }
            }
        } else {
            padded
        }
    }
}

pub struct VT100String {
    plain_str: String,
    index_map: Vec<usize>,
}

impl View for VT100String {
    type V = StyledText;

    closed spec fn view(&self) -> StyledText {
        StyledText { chars: self.plain_str@, index_map: self.index_map@ }
    }
}

impl VT100String {
    pub fn new(s: &str) -> (v: VT100String)
        ensures
            v@.chars == s@,
            v@.index_map == index_map_of(s@),
    {
        let chars = chars_of(s);
        VT100String { plain_str: String::from_str(s), index_map: build_index_map(&chars) }
    }

    /// The text as it was given, control sequences included.
    pub fn raw(&self) -> (s: String)
        ensures
            s@ == self@.chars,
    {
        self.plain_str.clone()
    }

    /// Under which position of the text each character that shows is
    /// found.
    pub fn index_map(&self) -> (map: Vec<usize>)
        ensures
            map@ == self@.index_map,
    {
        let mut map: Vec<usize> = Vec::new();
        let mut i: usize = 0;
        while i < self.index_map.len()
            invariant
                i <= self.index_map.len(),
                map@ == self.index_map@.take(i as int),
            decreases self.index_map.len() - i,
        {
            map.push(self.index_map[i]);
            i += 1;
        }
        assert(map@ =~= self.index_map@);
        map
    }

    /// Replaces the character that shows at `index` by `c`, see
    /// [`StyledText::set`].
    pub fn set(&mut self, index: usize, c: char)
        ensures
            final(self)@ == old(self)@.set(index as int, c),
    {
        let mut chars = chars_of(self.plain_str.as_str());
        if index >= self.index_map.len() {
            let more = index - self.index_map.len();
            let ghost before = chars@;
            let mut i: usize = 0;
            while i < more
                invariant
                    i <= more,
                    chars@ == before + Seq::new(i as nat, |k: int| ' '),
                decreases more - i,
            {
                chars.push(' ');
                i += 1;
                assert(chars@ =~= before + Seq::new(i as nat, |k: int| ' '));
            }
            chars.push(' ');
            assert(chars@ =~= before + Seq::new((more + 1) as nat, |k: int| ' '));
            self.index_map = build_index_map(&chars);
        }
        if index < self.index_map.len() {
            let start = self.index_map[index];
            let at = if start <= chars.len() { end_of_run(&chars, start) } else { start };
            if at < chars.len() {
                chars[at] = c;
            } else {
                chars.push(c);
            }
        }
        self.plain_str = string_of(&chars);
    }

    /// How many characters show.
    pub fn len(&self) -> (n: usize)
        ensures
            n == shown_from(self@.chars, 0).len(),
    {
        let chars = chars_of(self.plain_str.as_str());
        strip(&chars).len()
    }

    /// The text from the character that shows at `from` up to the one that
    /// shows at `to`, with the control sequences that belong to them. With
    /// `to` at the number of characters that show, the text from `from` to
    /// the end.
    pub fn slice(&self, from: usize, to: usize) -> (s: &str)
        requires
            from < self@.index_map.len(),
            self@.index_map[from as int] <= self@.chars.len(),
            to != shown_from(self@.chars, 0).len() ==> to < self@.index_map.len()
                && self@.index_map[from as int] <= self@.index_map[to as int]
                && self@.index_map[to as int] <= self@.chars.len(),
        ensures
            s@ == self@.chars.subrange(
                self@.index_map[from as int] as int,
                if to == shown_from(self@.chars, 0).len() {
                    self@.chars.len() as int
                } else {
                    self@.index_map[to as int] as int
                },
            ),
    {
        let total = self.plain_str.as_str().unicode_len();
        if to == self.len() {
            let true_start = self.index_map[from];
            self.plain_str.as_str().substring_char(true_start, total)
        } else {
            let true_start = self.index_map[from];
            let true_end = self.index_map[to];
            self.plain_str.as_str().substring_char(true_start, true_end)
        }
    }

    /// Cuts the text to `n` characters, see [`cut_end`]: returns where the
    /// cut ends, and the text up to there, or all of it if it ends sooner.
    pub fn esc_aware_slice(&self, n: usize) -> (r: (usize, String))
        requires
            self@.chars.len() <= usize::MAX / 4,
        ensures
            r.0 == cut_end(self@.chars, n as int),
            r.1@ == self@.chars.take(
                if r.0 < self@.chars.len() {
                    r.0 as int
                } else {
                    self@.chars.len() as int
                },
            ),
    {
        let chars = chars_of(self.plain_str.as_str());
        let len = chars.len();
        if n >= len {
            assert(chars@.take(len as int) =~= chars@);
            return (len, string_of(&chars));
        }
        let vt100s = find_vt100s(&chars);
        let ghost runs = runs_from(chars@, 0);
        let mut captured_chars: usize = 0;
        let mut end: usize = 0;
        let mut i: usize = 0;
        while i < vt100s.len()
            invariant
                i <= vt100s.len(),
                n < len,
                len == chars.len(),
                len <= usize::MAX / 4,
                runs == runs_from(chars@, 0),
                vt100s@.len() == runs.len(),
                forall|k: int|
                    0 <= k < vt100s@.len() ==> (#[trigger] vt100s@[k]).0 == runs[k].0
                        && vt100s@[k].1 == runs[k].1 && vt100s@[k].0 <= vt100s@[k].1 <= len,
                cut_after(runs, n as int, i as int) == (CutState {
                    captured: captured_chars as int,
                    end: end as int,
                }),
                end <= len,
                captured_chars <= 3 * len,
                i > 0 ==> end == vt100s@[i - 1].1 || captured_chars + 1 >= n,
                forall|k: int| i <= k < vt100s@.len() ==> end <= (#[trigger] vt100s@[k]).0,
            decreases vt100s.len() - i,
        {
            let (start, stop) = vt100s[i];
            if captured_chars + 1 < n {
                let next_block_of_text_size = start - end;
                let next_incr = if captured_chars + next_block_of_text_size >= n {
                    (captured_chars + next_block_of_text_size) - n
                } else {
                    next_block_of_text_size
                };
                captured_chars += next_incr;
                end = stop;
            }
            proof {
                lemma_runs_ordered(chars@, 0);
            }
            i += 1;
        }
        if vt100s.len() > 0 && captured_chars < n {
            end += n - captured_chars;
        }
        if vt100s.len() == 0 {
            end = n;
        }
        let slice_end = if end < len { end } else { len };
        let mut text: Vec<char> = Vec::new();
        let mut j: usize = 0;
        while j < slice_end
            invariant
                j <= slice_end <= chars.len(),
                text@ == chars@.take(j as int),
            decreases slice_end - j,
        {
            text.push(chars[j]);
            j += 1;
            assert(text@ =~= chars@.take(j as int));
        }
        (end, string_of(&text))
    }

    /// The characters that show.
    pub fn plaintext(&self) -> (s: String)
        ensures
            s@ == shown_from(self@.chars, 0),
    {
        let chars = chars_of(self.plain_str.as_str());
        string_of(&strip(&chars))
    }

    /// The runs of control sequences in the text, from the left.
    pub fn vt100codes(&self) -> (codes: Vec<&str>)
        ensures
            codes@.len() == runs_from(self@.chars, 0).len(),
            forall|i: int|
                0 <= i < codes@.len() ==> (#[trigger] codes@[i])@ == self@.chars.subrange(
                    runs_from(self@.chars, 0)[i].0,
                    runs_from(self@.chars, 0)[i].1,
                ),
    {
        let chars = chars_of(self.plain_str.as_str());
        let runs = find_vt100s(&chars);
        let mut codes: Vec<&str> = Vec::new();
        let mut i: usize = 0;
        while i < runs.len()
            invariant
                i <= runs.len(),
                chars@ == self@.chars,
                runs@.len() == runs_from(chars@, 0).len(),
                forall|k: int|
                    0 <= k < runs@.len() ==> (#[trigger] runs@[k]).0 == runs_from(chars@, 0)[k].0
                        && runs@[k].1 == runs_from(chars@, 0)[k].1 && runs@[k].0 <= runs@[k].1
                        <= chars@.len(),
                codes@.len() == i,
                forall|k: int|
                    0 <= k < i ==> (#[trigger] codes@[k])@ == chars@.subrange(
                        runs_from(chars@, 0)[k].0,
                        runs_from(chars@, 0)[k].1,
                    ),
            decreases runs.len() - i,
        {
            let (start, end) = runs[i];
            codes.push(self.plain_str.as_str().substring_char(start, end));
            i += 1;
        }
        codes
    }
}

/// The runs of control sequences lie one behind the other: each begins
/// where the one before it has ended, or later.
pub proof fn lemma_runs_ordered(s: Seq<char>, p: int)
    requires
        0 <= p,
    ensures
        forall|k: int|
            0 <= k < runs_from(s, p).len() ==> p <= (#[trigger] runs_from(s, p)[k]).0 < runs_from(
                s,
                p,
            )[k].1 <= s.len(),
        forall|j: int, k: int|
            0 <= j < k < runs_from(s, p).len() ==> (#[trigger] runs_from(s, p)[j]).1 <= (
            #[trigger] runs_from(s, p)[k]).0,
    decreases s.len() - p,
{
    if p < s.len() {
        let e = run_end(s, p);
        if p < e <= s.len() {
            lemma_runs_ordered(s, e);
            let rest = runs_from(s, e);
            let all = runs_from(s, p);
            assert(all == seq![(p, e)] + rest);
            assert forall|k: int| 0 <= k < all.len() implies p <= (#[trigger] all[k]).0 < all[k].1
                <= s.len() by {
                if k > 0 {
                    assert(all[k] == rest[k - 1]);
                }
            }
            assert forall|j: int, k: int| 0 <= j < k < all.len() implies (#[trigger] all[j]).1 <= (
            #[trigger] all[k]).0 by {
                assert(all[k] == rest[k - 1]);
                if j > 0 {
                    assert(all[j] == rest[j - 1]);
                }
            }
        } else {
            lemma_runs_ordered(s, p + 1);
            assert(runs_from(s, p) == runs_from(s, p + 1));
        }
    } else {
        assert(runs_from(s, p) =~= Seq::<(int, int)>::empty());
    }
}

/// Where the control sequence that begins at position `p` ends, see
/// [`sequence_end`].
fn end_of_sequence(s: &Vec<char>, p: usize) -> (e: usize)
    requires
        p <= s.len(),
    ensures
        e == sequence_end(s@, p as int),
        p <= e <= s.len(),
{
    let n = s.len();
    let header: usize = if p < n && n - p >= 2 && s[p] == ESC && s[p + 1] == '[' {
        2
    } else if p < n && s[p] == '\u{9b}' {
        1
    } else {
        0
    };
    if header == 0 {
        return p;
    }
    let mut q: usize = p + header;
    while q < n && '0' <= s[q] && s[q] <= '?'
        invariant
            p + header <= q <= n,
            n == s.len(),
            skip_params(s@, p + header) == skip_params(s@, q as int),
        decreases n - q,
    {
        q += 1;
    }
    let ghost params_stop = q;
    while q < n && ' ' <= s[q] && s[q] <= '/'
        invariant
            params_stop <= q <= n,
            n == s.len(),
            skip_intermediates(s@, params_stop as int) == skip_intermediates(s@, q as int),
        decreases n - q,
    {
        q += 1;
    }
    if q < n && '@' <= s[q] && s[q] <= '~' {
        q + 1
    } else {
        p
    }
}

/// Where the run of control sequences that begins at position `p` ends, see
/// [`run_end`].
fn end_of_run(s: &Vec<char>, p: usize) -> (e: usize)
    requires
        p <= s.len(),
    ensures
        e == run_end(s@, p as int),
        p <= e <= s.len(),
{
    let mut at: usize = p;
    loop
        invariant
            p <= at <= s.len(),
            run_end(s@, p as int) == run_end(s@, at as int),
        ensures
            at == run_end(s@, p as int),
            p <= at <= s.len(),
        decreases s.len() - at,
    {
        let e = end_of_sequence(s, at);
        if e > at {
            at = e;
        } else {
            break;
        }
    }
    at
}

/// The runs of control sequences in `s`, see [`runs_from`].
fn find_vt100s(s: &Vec<char>) -> (runs: Vec<(usize, usize)>)
    ensures
        runs@.len() == runs_from(s@, 0).len(),
        forall|k: int|
            0 <= k < runs@.len() ==> (#[trigger] runs@[k]).0 == runs_from(s@, 0)[k].0 && runs@[k].1
                == runs_from(s@, 0)[k].1 && runs@[k].0 <= runs@[k].1 <= s@.len(),
{
    let mut runs: Vec<(usize, usize)> = Vec::new();
    let mut p: usize = 0;
    let n = s.len();
    while p < n
        invariant
            p <= n,
            n == s.len(),
            runs_from(s@, 0).len() == runs@.len() + runs_from(s@, p as int).len(),
            forall|k: int|
                0 <= k < runs@.len() ==> (#[trigger] runs@[k]).0 == runs_from(s@, 0)[k].0
                    && runs@[k].1 == runs_from(s@, 0)[k].1 && runs@[k].0 <= runs@[k].1 <= s@.len(),
            forall|k: int|
                0 <= k < runs_from(s@, p as int).len() ==> runs_from(s@, 0)[runs@.len() + k]
                    == #[trigger] runs_from(s@, p as int)[k],
        decreases n - p,
    {
        let e = end_of_run(s, p);
        let ghost rest = runs_from(s@, p as int);
        if e > p {
            runs.push((p, e));
            proof {
                assert(rest == seq![(p as int, e as int)] + runs_from(s@, e as int));
                assert(rest[0] == (p as int, e as int));
                assert forall|k: int| 0 <= k < runs_from(s@, e as int).len() implies runs_from(
                    s@,
                    0,
                )[runs@.len() + k] == #[trigger] runs_from(s@, e as int)[k] by {
                    assert(rest[k + 1] == runs_from(s@, e as int)[k]);
                }
            }
            p = e;
        } else {
            p += 1;
        }
    }
    runs
}

/// The characters of `s` that belong to no control sequence.
fn strip(s: &Vec<char>) -> (shown: Vec<char>)
    ensures
        shown@ == shown_from(s@, 0),
{
    let mut shown: Vec<char> = Vec::new();
    let mut p: usize = 0;
    let n = s.len();
    while p < n
        invariant
            p <= n,
            n == s.len(),
            shown_from(s@, 0) == shown@ + shown_from(s@, p as int),
        decreases n - p,
    {
        let e = end_of_run(s, p);
        if e > p {
            p = e;
        } else {
            shown.push(s[p]);
            assert(shown_from(s@, 0) =~= shown@ + shown_from(s@, p + 1));
            p += 1;
        }
    }
    assert(shown_from(s@, 0) =~= shown@);
    shown
}

/// Appends the positions from `from` up to and with `to` to `out`.
fn push_positions(out: &mut Vec<usize>, from: usize, to: usize)
    ensures
        final(out)@ == old(out)@ + positions(from as int, to as int),
{
    if to < from {
        assert(out@ =~= old(out)@ + positions(from as int, to as int));
        return;
    }
    let mut i: usize = from;
    assert(out@ =~= old(out)@ + positions(from as int, from - 1));
    while i < to
        invariant
            from <= i <= to,
            out@ == old(out)@ + positions(from as int, i - 1),
        decreases to - i,
    {
        out.push(i);
        i += 1;
        assert(out@ =~= old(out)@ + positions(from as int, i - 1));
    }
    out.push(to);
    assert(out@ =~= old(out)@ + positions(from as int, to as int));
}

/// Makes the index map of `s`, see [`index_map_of`].
fn build_index_map(s: &Vec<char>) -> (map: Vec<usize>)
    ensures
        map@ == index_map_of(s@),
{
    let n = s.len();
    let mut out_vec: Vec<usize> = Vec::new();
    if n == 0 {
        return out_vec;
    }
    let vt100s = find_vt100s(s);
    let k = vt100s.len();
    if k == 0 {
        push_positions(&mut out_vec, 0, n - 1);
        assert(out_vec@ =~= positions(0, n - 1));
    } else {
        let last_start = vt100s[k - 1].0;
        let first_end = vt100s[0].1;
        push_positions(&mut out_vec, 0, last_start);
        if first_end < n {
            push_positions(&mut out_vec, first_end + 1, n - 1);
        } else {
            assert(positions(first_end + 1, n - 1) =~= Seq::<usize>::empty());
        }
        assert(out_vec@ =~= positions(0, last_start as int) + positions(first_end + 1, n - 1));
    }
    out_vec
}

} // verus!
