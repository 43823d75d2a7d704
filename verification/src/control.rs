//! The messages between the front end of a dashboard and the thread that
//! runs its tasks, and the rules by which the two decide.

use vstd::prelude::*;
use crate::text::{chars_of, same_text, string_of};

verus! {

/// What a command asks for.
#[derive(Clone, Copy, Debug, PartialEq, Eq, Structural)]
pub enum CommandKind {
    Execute,
    Activate,
    Register,
    Resize,
    Running,
    Unsupported,
}

/// Whether `c` is white space as Unicode defines it.
pub open spec fn is_space(c: char) -> bool {
    ('\u{9}' <= c && c <= '\u{d}') || c == ' ' || c == '\u{85}' || c == '\u{a0}' || c == '\u{1680}'
        || ('\u{2000}' <= c && c <= '\u{200a}') || c == '\u{2028}' || c == '\u{2029}' || c
        == '\u{202f}' || c == '\u{205f}' || c == '\u{3000}'
}

/// Whether `c` is one of the ASCII white space characters: space, tab, line
/// feed, form feed, carriage return.
pub open spec fn is_ascii_space(c: char) -> bool {
    c == ' ' || c == '\t' || c == '\n' || c == '\u{c}' || c == '\r'
}

/// The first position in `s[from..to]` that holds `c`, and `to` if there is
/// none.
pub open spec fn position_of(s: Seq<char>, c: char, from: int, to: int) -> int
    decreases to - from,
{
    if from >= to || s[from] == c {
        from
    } else {
        position_of(s, c, from + 1, to)
    }
}

/// The first position in `s[from..to]` that holds no white space, and `to`
/// if there is none.
pub open spec fn trim_low(s: Seq<char>, from: int, to: int) -> int
    decreases to - from,
{
    if from >= to || !is_space(s[from]) {
        from
    } else {
        trim_low(s, from + 1, to)
    }
}

/// The position behind the last character of `s[from..to]` that is no white
/// space, and `from` if there is none.
pub open spec fn trim_high(s: Seq<char>, from: int, to: int) -> int
    decreases to - from,
{
    if to <= from || !is_space(s[to - 1]) {
        to
    } else {
        trim_high(s, from, to - 1)
    }
}

/// `s[from..to]` without the white space at its ends.
pub open spec fn trimmed_part(s: Seq<char>, from: int, to: int) -> Seq<char> {
    s.subrange(trim_low(s, from, to), trim_high(s, trim_low(s, from, to), to))
}

/// `s` without the white space at its ends.
pub open spec fn trimmed(s: Seq<char>) -> Seq<char> {
    trimmed_part(s, 0, s.len() as int)
}

/// The parts of `s` between its colons from position `i` on, each without
/// the white space at its ends, with a colon between them; `field_start` is
/// where the part that `i` lies in began.
pub open spec fn join_trimmed(s: Seq<char>, i: int, field_start: int) -> Seq<char>
    decreases s.len() - i,
{
    if i >= s.len() {
        trimmed_part(s, field_start, s.len() as int)
    } else if s[i] == ':' {
        trimmed_part(s, field_start, i) + seq![':'] + join_trimmed(s, i + 1, i + 1)
    } else {
        join_trimmed(s, i + 1, field_start)
    }
}

/// The name of a command: what stands before its first colon, without the
/// white space at its ends.
pub open spec fn command_name(message: Seq<char>) -> Seq<char> {
    trimmed_part(message, 0, position_of(message, ':', 0, message.len() as int))
}

/// The data of a command: the parts behind its first colon, each without
/// the white space at its ends, with a colon between them.
pub open spec fn command_data(message: Seq<char>) -> Seq<char> {
    let colon = position_of(message, ':', 0, message.len() as int);
    if colon < message.len() {
        join_trimmed(message, colon + 1, colon + 1)
    } else {
        Seq::empty()
    }
}

/// The kind of a response: what stands before its first colon.
pub open spec fn response_kind(response: Seq<char>) -> Seq<char> {
    response.take(position_of(response, ':', 0, response.len() as int))
}

/// What a response says: what stands behind its first colon.
pub open spec fn response_rest(response: Seq<char>) -> Seq<char> {
    let colon = position_of(response, ':', 0, response.len() as int);
    if colon < response.len() {
        response.skip(colon + 1)
    } else {
        Seq::empty()
    }
}

/// What the name of a command asks for.
pub open spec fn kind_of_command(name: Seq<char>) -> CommandKind {
    if name == "execute"@ || name == "local_execute"@ {
        CommandKind::Execute
    } else if name == "activate"@ {
        CommandKind::Activate
    } else if name == "register"@ {
        CommandKind::Register
    } else if name == "resize"@ {
        CommandKind::Resize
    } else if name == "running"@ {
        CommandKind::Running
    } else {
        CommandKind::Unsupported
    }
}

/// Whether a command is one that the orchestrator sends to itself, and so
/// gets no response: its name begins with `local`.
pub open spec fn is_local(name: Seq<char>) -> bool {
    name.len() >= 5 && name.take(5) == "local"@
}

/// The message that asks for `command` with the data `metadata`.
pub fn compose_command(command: &str, metadata: &str) -> (message: String)
    ensures
        message@ == command@ + seq![':', ' '] + metadata@,
{
    let mut out = chars_of(command);
    out.push(':');
    out.push(' ');
    let data = chars_of(metadata);
    let mut i: usize = 0;
    let ghost head = out@;
    while i < data.len()
        invariant
            i <= data.len(),
            out@ == head + data@.take(i as int),
        decreases data.len() - i,
    {
        out.push(data[i]);
        i += 1;
    }
    assert(out@ =~= command@ + seq![':', ' '] + metadata@);
    string_of(&out)
}

/// Where the first `c` in `v[from..to]` stands, see [`position_of`].
fn find_char(v: &Vec<char>, c: char, from: usize, to: usize) -> (at: usize)
    requires
        from <= to <= v.len(),
    ensures
        at == position_of(v@, c, from as int, to as int),
        from <= at <= to,
{
    let mut i: usize = from;
    while i < to && v[i] != c
        invariant
            from <= i <= to <= v.len(),
            position_of(v@, c, from as int, to as int) == position_of(v@, c, i as int, to as int),
        decreases to - i,
    {
        i += 1;
    }
    i
}

/// Whether `c` is white space, see [`is_space`].
pub fn is_whitespace(c: char) -> (r: bool)
    ensures
        r == is_space(c),
{
    ('\u{9}' <= c && c <= '\u{d}') || c == ' ' || c == '\u{85}' || c == '\u{a0}' || c == '\u{1680}'
        || ('\u{2000}' <= c && c <= '\u{200a}') || c == '\u{2028}' || c == '\u{2029}' || c
        == '\u{202f}' || c == '\u{205f}' || c == '\u{3000}'
}

/// Appends `v[from..to]` without the white space at its ends to `out`.
fn push_trimmed(out: &mut Vec<char>, v: &Vec<char>, from: usize, to: usize)
    requires
        from <= to <= v.len(),
    ensures
        final(out)@ == old(out)@ + trimmed_part(v@, from as int, to as int),
{
    let mut low: usize = from;
    while low < to && is_whitespace(v[low])
        invariant
            from <= low <= to <= v.len(),
            trim_low(v@, from as int, to as int) == trim_low(v@, low as int, to as int),
        decreases to - low,
    {
        low += 1;
    }
    let mut high: usize = to;
    while high > low && is_whitespace(v[high - 1])
        invariant
            low <= high <= to <= v.len(),
            trim_high(v@, low as int, to as int) == trim_high(v@, low as int, high as int),
        decreases high - low,
    {
        high -= 1;
    }
    let mut i: usize = low;
    while i < high
        invariant
            low <= i <= high <= v.len(),
            out@ == old(out)@ + v@.subrange(low as int, i as int),
        decreases high - i,
    {
        out.push(v[i]);
        i += 1;
        assert(out@ =~= old(out)@ + v@.subrange(low as int, i as int));
    }
}

/// Cuts a command into its name and its data, see [`command_name`] and
/// [`command_data`].
pub fn split_command(message: &str) -> (r: (String, String))
    ensures
        r.0@ == command_name(message@),
        r.1@ == command_data(message@),
{
    let chars = chars_of(message);
    let n = chars.len();
    let colon = find_char(&chars, ':', 0, n);
    let mut name: Vec<char> = Vec::new();
    push_trimmed(&mut name, &chars, 0, colon);
    assert(name@ =~= command_name(message@));
    let mut data: Vec<char> = Vec::new();
    if colon < n {
        let mut i: usize = colon + 1;
        let mut field_start: usize = colon + 1;
        assert(data@ + join_trimmed(chars@, i as int, field_start as int) =~= command_data(
            message@,
        ));
        while i < n
            invariant
                colon < field_start <= i <= n,
                n == chars.len(),
                chars@ == message@,
                colon == position_of(chars@, ':', 0, n as int),
                data@ + join_trimmed(chars@, i as int, field_start as int) == command_data(
                    message@,
                ),
            decreases n - i,
        {
            if chars[i] == ':' {
                let ghost before = data@;
                push_trimmed(&mut data, &chars, field_start, i);
                data.push(':');
                assert(data@ + join_trimmed(chars@, i + 1, i + 1) =~= before + join_trimmed(
                    chars@,
                    i as int,
                    field_start as int,
                ));
                field_start = i + 1;
            }
            i += 1;
        }
        let ghost before = data@;
        push_trimmed(&mut data, &chars, field_start, n);
        assert(data@ =~= before + join_trimmed(chars@, n as int, field_start as int));
    }
    (string_of(&name), string_of(&data))
}

/// What a response says, if it is of the kind `expected`: what stands
/// behind its first colon. Nothing for a response of another kind.
pub fn response_payload(response: &str, expected: &str) -> (r: Option<String>)
    ensures
        match r {
            Some(rest) => response_kind(response@) == expected@ && rest@ == response_rest(
                response@,
            ),
            None => response_kind(response@) != expected@,
        },
{
    let chars = chars_of(response);
    let n = chars.len();
    let colon = find_char(&chars, ':', 0, n);
    let mut kind: Vec<char> = Vec::new();
    let mut i: usize = 0;
    while i < colon
        invariant
            i <= colon <= chars.len(),
            kind@ == chars@.take(i as int),
        decreases colon - i,
    {
        kind.push(chars[i]);
        i += 1;
        assert(kind@ =~= chars@.take(i as int));
    }
    if !same_text(string_of(&kind).as_str(), expected) {
        return None;
    }
    let mut rest: Vec<char> = Vec::new();
    if colon < n {
        let mut j: usize = colon + 1;
        while j < n
            invariant
                colon < j <= n,
                n == chars.len(),
                rest@ == chars@.subrange(colon + 1, j as int),
            decreases n - j,
        {
            rest.push(chars[j]);
            j += 1;
            assert(rest@ =~= chars@.subrange(colon + 1, j as int));
        }
        assert(rest@ =~= chars@.skip(colon + 1));
    }
    Some(string_of(&rest))
}

/// Whether a response reports success: without the white space at its
/// ends it reads `Success`.
pub fn is_success(response: &str) -> (r: bool)
    ensures
        r == (trimmed(response@) == "Success"@),
{
    let chars = chars_of(response);
    let mut text: Vec<char> = Vec::new();
    push_trimmed(&mut text, &chars, 0, chars.len());
    assert(text@ =~= trimmed(response@));
    same_text(string_of(&text).as_str(), "Success")
}

/// What the command with the name `name` asks for.
pub fn command_kind(name: &str) -> (kind: CommandKind)
    ensures
        kind == kind_of_command(name@),
{
    if same_text(name, "execute") || same_text(name, "local_execute") {
        CommandKind::Execute
    } else if same_text(name, "activate") {
        CommandKind::Activate
    } else if same_text(name, "register") {
        CommandKind::Register
    } else if same_text(name, "resize") {
        CommandKind::Resize
    } else if same_text(name, "running") {
        CommandKind::Running
    } else {
        CommandKind::Unsupported
    }
}

/// Whether the command with the name `name` gets a response: every command
/// but those that the orchestrator sends to itself.
pub fn wants_response(name: &str) -> (r: bool)
    ensures
        r == !is_local(name@),
{
    let chars = chars_of(name);
    if chars.len() < 5 {
        return true;
    }
    let mut head: Vec<char> = Vec::new();
    let mut i: usize = 0;
    while i < 5
        invariant
            i <= 5 <= chars.len(),
            head@ == chars@.take(i as int),
        decreases 5 - i,
    {
        head.push(chars[i]);
        i += 1;
        assert(head@ =~= chars@.take(i as int));
    }
    !same_text(string_of(&head).as_str(), "local")
}

/// The response to a command: its name, and `Success` or the error.
pub fn compose_response(name: &str, error: Option<&str>) -> (response: String)
    ensures
        response@ == match error {
            None => name@ + ": Success"@,
            Some(e) => name@ + ": Error - "@ + e@,
        },
{
    let mut out = chars_of(name);
    match error {
        None => {
            let tail = chars_of(": Success");
            let ghost head = out@;
            let mut i: usize = 0;
            while i < tail.len()
                invariant
                    i <= tail.len(),
                    out@ == head + tail@.take(i as int),
                decreases tail.len() - i,
            {
                out.push(tail[i]);
                i += 1;
            }
            assert(out@ =~= name@ + ": Success"@);
        },
        Some(e) => {
            let middle = chars_of(": Error - ");
            let ghost head = out@;
            let mut i: usize = 0;
            while i < middle.len()
                invariant
                    i <= middle.len(),
                    out@ == head + middle@.take(i as int),
                decreases middle.len() - i,
            {
                out.push(middle[i]);
                i += 1;
            }
            let tail = chars_of(e);
            let ghost head2 = out@;
            let mut j: usize = 0;
            while j < tail.len()
                invariant
                    j <= tail.len(),
                    out@ == head2 + tail@.take(j as int),
                decreases tail.len() - j,
            {
                out.push(tail[j]);
                j += 1;
            }
            assert(out@ =~= name@ + ": Error - "@ + e@);
        },
    }
    string_of(&out)
}

/// Whether a task runs on the main pseudo-terminal: it does if it is the
/// task that was made active.
pub fn runs_interactively(task_id: &str, active: Option<&str>) -> (r: bool)
    ensures
        r == match active {
            None => false,
            Some(a) => task_id@ == a@,
        },
{
    match active {
        None => false,
        Some(a) => same_text(task_id, a),
    }
}

/// Whether what a child wrote ends in the two bytes by which it says that
/// it is done: `^Z`.
pub fn ends_with_exit_marker(output: &Vec<u8>, size: usize) -> (r: bool)
    requires
        size <= output.len(),
    ensures
        r == (size >= 2 && output[size - 2] == 94 && output[size - 1] == 90),
{
    size >= 2 && output[size - 2] == 94 && output[size - 1] == 90
}

/// Whether the keys that were read begin with the interrupt key,
/// `Ctrl-C`.
pub fn is_interrupt(keys: &Vec<u8>) -> (r: bool)
    ensures
        r == (keys.len() > 0 && keys[0] == 3),
{
    keys.len() > 0 && keys[0] == 3
}

/// The first position in `s` at or behind `from` that holds no ASCII white
/// space, and the length of `s` if there is none.
pub open spec fn word_start(s: Seq<char>, from: int) -> int
    decreases s.len() - from,
{
    if from < 0 || from >= s.len() || !is_ascii_space(s[from]) {
        from
    } else {
        word_start(s, from + 1)
    }
}

/// The first position in `s` at or behind `from` that holds ASCII white
/// space, and the length of `s` if there is none.
pub open spec fn word_end(s: Seq<char>, from: int) -> int
    decreases s.len() - from,
{
    if from < 0 || from >= s.len() || is_ascii_space(s[from]) {
        from
    } else {
        word_end(s, from + 1)
    }
}

/// The words of `s` from position `from` on: its runs of characters that
/// are no ASCII white space.
pub open spec fn words_from(s: Seq<char>, from: int) -> Seq<Seq<char>>
    decreases s.len() - from,
{
    let start = word_start(s, from);
    let end = word_end(s, start);
    if from < 0 || start < from || start >= s.len() || end <= start || end > s.len() {
        Seq::empty()
    } else {
        seq![s.subrange(start, end)] + words_from(s, end)
    }
}

/// What each of the strings holds.
pub open spec fn texts(words: Seq<String>) -> Seq<Seq<char>> {
    Seq::new(words.len(), |i: int| words[i]@)
}

/// Cuts a command line into its words: the program, and its arguments.
pub fn command_words(command: &str) -> (words: Vec<String>)
    ensures
        texts(words@) == words_from(command@, 0),
{
    let chars = chars_of(command);
    let n = chars.len();
    let mut words: Vec<String> = Vec::new();
    let mut at: usize = 0;
    assert(texts(words@) + words_from(chars@, 0) =~= words_from(command@, 0));
    loop
        invariant
            at <= n,
            n == chars.len(),
            chars@ == command@,
            texts(words@) + words_from(chars@, at as int) == words_from(command@, 0),
        ensures
            texts(words@) == words_from(command@, 0),
        decreases n - at,
    {
        let mut start: usize = at;
        while start < n && is_ascii_whitespace(chars[start])
            invariant
                at <= start <= n,
                n == chars.len(),
                word_start(chars@, at as int) == word_start(chars@, start as int),
            decreases n - start,
        {
            start += 1;
        }
        let mut end: usize = start;
        while end < n && !is_ascii_whitespace(chars[end])
            invariant
                start <= end <= n,
                n == chars.len(),
                word_end(chars@, start as int) == word_end(chars@, end as int),
            decreases n - end,
        {
            end += 1;
        }
        if start >= n || end <= start {
            assert(word_start(chars@, start as int) == start);
            assert(word_end(chars@, end as int) == end);
            assert(words_from(chars@, at as int) =~= Seq::<Seq<char>>::empty());
            assert(texts(words@) + words_from(chars@, at as int) =~= texts(words@));
            break;
        }
        let mut word: Vec<char> = Vec::new();
        let mut i: usize = start;
        while i < end
            invariant
                start <= i <= end <= n,
                n == chars.len(),
                word@ == chars@.subrange(start as int, i as int),
            decreases end - i,
        {
            word.push(chars[i]);
            i += 1;
            assert(word@ =~= chars@.subrange(start as int, i as int));
        }
        let ghost before = texts(words@);
        words.push(string_of(&word));
        assert(texts(words@) =~= before.push(chars@.subrange(start as int, end as int)));
        assert(texts(words@) + words_from(chars@, end as int) =~= before + words_from(
            chars@,
            at as int,
        ));
        at = end;
    }
    words
}

/// Whether `c` is ASCII white space, see [`is_ascii_space`].
pub fn is_ascii_whitespace(c: char) -> (r: bool)
    ensures
        r == is_ascii_space(c),
{
    c == ' ' || c == '\t' || c == '\n' || c == '\u{c}' || c == '\r'
}

} // verus!
