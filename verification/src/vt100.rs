//! The tokens that the parser hands out: plain text, and control sequences
//! sorted by what they ask for.

use vstd::prelude::*;
use crate::style::TerminalError;
use crate::text::{ESC, chars_of};

verus! {

/// What a control sequence asks for.
#[derive(Clone, Copy, Debug, PartialEq, Eq, Structural)]
pub enum ControlKind {
    ScrollDown,
    ScrollUp,
    SGR,
    MoveCursor,
    MoveCursorApp,
    ClearLine,
    EraseLineAfterCursor,
    EraseLineBeforeCursor,
    EraseScreen,
    PassThrough,
    HideCursor,
    ShowCursor,
    GetCursorPos,
    EnterApplicationKeyMode,
    EnterAltKeypadMode,
    ExitAltKeypadMode,
    Unknown,
}

/// A control sequence: its kind, and the characters it was received as.
#[derive(Debug)]
pub enum VT100 {
    ScrollDown(String),
    ScrollUp(String),
    SGR(String),
    MoveCursor(String),
    MoveCursorApp(String),
    ClearLine(String),
    EraseLineAfterCursor(String),
    EraseLineBeforeCursor(String),
    EraseScreen(String),
    PassThrough(String),
    HideCursor(String),
    ShowCursor(String),
    GetCursorPos(String),
    EnterApplicationKeyMode(String),
    EnterAltKeypadMode(String),
    ExitAltKeypadMode(String),
    Unknown(String),
}

/// A piece of a pane's input: text to show, or a control sequence.
#[derive(Debug)]
pub enum TerminalOutput {
    Plaintext(String),
    CSI(VT100),
}

/// What a token holds: the kind of a control sequence, or nothing for plain
/// text, and the characters it was received as.
pub struct Token {
    pub kind: Option<ControlKind>,
    pub raw: Seq<char>,
}

/// Whether `c` ends a sequence that moves the cursor.
pub open spec fn is_move_final(c: char) -> bool {
    c == 'H' || c == 'f' || c == 'A' || c == 'B' || c == 'C' || c == 'D'
}

/// Whether `c` ends a sequence that sets or asks for a mode.
pub open spec fn is_mode_final(c: char) -> bool {
    c == 'h' || c == 'l' || c == 'n' || c == 'r'
}

/// Whether `s` begins with the two characters `a`, `b`.
pub open spec fn begins_with(s: Seq<char>, a: char, b: char) -> bool {
    s.len() >= 2 && s[0] == a && s[1] == b
}

/// The kind of a sequence that is told by its last character or by what it
/// is as a whole; nothing where neither tells.
pub open spec fn classify_by_form(s: Seq<char>) -> Option<ControlKind>
    recommends
        s.len() > 0,
{
    let last = s.last();
    if s == seq![ESC, 'M'] {
        Some(ControlKind::ScrollDown)
    } else if s == seq![ESC, 'D'] {
        Some(ControlKind::ScrollUp)
    } else if last == 'm' {
        Some(ControlKind::SGR)
    } else if is_move_final(last) && begins_with(s, ESC, 'O') {
        Some(ControlKind::MoveCursorApp)
    } else if is_move_final(last) && begins_with(s, ESC, '[') {
        Some(ControlKind::MoveCursor)
    } else if last == 'J' {
        Some(ControlKind::EraseScreen)
    } else if s == seq![ESC, '[', '1', 'K'] {
        Some(ControlKind::EraseLineBeforeCursor)
    } else if s == seq![ESC, '[', '2', 'K'] {
        Some(ControlKind::ClearLine)
    } else if s == seq![ESC, '[', 'K'] || s == seq![ESC, '[', '0', 'K'] {
        Some(ControlKind::EraseLineAfterCursor)
    } else if s == seq![ESC, '[', '?', '1', 'h'] {
        Some(ControlKind::EnterApplicationKeyMode)
    } else if s == seq![ESC, '[', '?', '2', '5', 'l'] {
        Some(ControlKind::HideCursor)
    } else if s == seq![ESC, '[', '?', '2', '5', 'h'] {
        Some(ControlKind::ShowCursor)
    } else if s == seq![ESC, '[', '6', 'n'] {
        Some(ControlKind::GetCursorPos)
    } else if is_mode_final(last) {
        Some(ControlKind::PassThrough)
    } else {
        None
    }
}

/// The kind of the control sequence `s`. A sequence whose form tells nothing
/// clears the line if it begins with `ESC k`, and is unknown otherwise.
pub open spec fn classify(s: Seq<char>) -> ControlKind
    recommends
        s.len() > 0,
{
    match classify_by_form(s) {
        Some(kind) => kind,
        None => if begins_with(s, ESC, 'k') {
            ControlKind::ClearLine
        } else {
            ControlKind::Unknown
        },
    }
}

impl VT100 {
    pub open spec fn kind(self) -> ControlKind {
        match self {
            VT100::ScrollDown(_) => ControlKind::ScrollDown,
            VT100::ScrollUp(_) => ControlKind::ScrollUp,
            VT100::SGR(_) => ControlKind::SGR,
            VT100::MoveCursor(_) => ControlKind::MoveCursor,
            VT100::MoveCursorApp(_) => ControlKind::MoveCursorApp,
            VT100::ClearLine(_) => ControlKind::ClearLine,
            VT100::EraseLineAfterCursor(_) => ControlKind::EraseLineAfterCursor,
            VT100::EraseLineBeforeCursor(_) => ControlKind::EraseLineBeforeCursor,
            VT100::EraseScreen(_) => ControlKind::EraseScreen,
            VT100::PassThrough(_) => ControlKind::PassThrough,
            VT100::HideCursor(_) => ControlKind::HideCursor,
            VT100::ShowCursor(_) => ControlKind::ShowCursor,
            VT100::GetCursorPos(_) => ControlKind::GetCursorPos,
            VT100::EnterApplicationKeyMode(_) => ControlKind::EnterApplicationKeyMode,
            VT100::EnterAltKeypadMode(_) => ControlKind::EnterAltKeypadMode,
            VT100::ExitAltKeypadMode(_) => ControlKind::ExitAltKeypadMode,
            VT100::Unknown(_) => ControlKind::Unknown,
        }
    }

    /// The characters the sequence was received as.
    pub open spec fn raw(self) -> Seq<char> {
        match self {
            VT100::ScrollDown(s) => s@,
            VT100::ScrollUp(s) => s@,
            VT100::SGR(s) => s@,
            VT100::MoveCursor(s) => s@,
            VT100::MoveCursorApp(s) => s@,
            VT100::ClearLine(s) => s@,
            VT100::EraseLineAfterCursor(s) => s@,
            VT100::EraseLineBeforeCursor(s) => s@,
            VT100::EraseScreen(s) => s@,
            VT100::PassThrough(s) => s@,
            VT100::HideCursor(s) => s@,
            VT100::ShowCursor(s) => s@,
            VT100::GetCursorPos(s) => s@,
            VT100::EnterApplicationKeyMode(s) => s@,
            VT100::EnterAltKeypadMode(s) => s@,
            VT100::ExitAltKeypadMode(s) => s@,
            VT100::Unknown(s) => s@,
        }
    }

    /// The sequence of kind `kind` with the characters `raw`.
    pub fn of(kind: ControlKind, raw: String) -> (v: VT100)
        ensures
            v.kind() == kind,
            v.raw() == raw@,
    {
        match kind {
            ControlKind::ScrollDown => VT100::ScrollDown(raw),
            ControlKind::ScrollUp => VT100::ScrollUp(raw),
            ControlKind::SGR => VT100::SGR(raw),
            ControlKind::MoveCursor => VT100::MoveCursor(raw),
            ControlKind::MoveCursorApp => VT100::MoveCursorApp(raw),
            ControlKind::ClearLine => VT100::ClearLine(raw),
            ControlKind::EraseLineAfterCursor => VT100::EraseLineAfterCursor(raw),
            ControlKind::EraseLineBeforeCursor => VT100::EraseLineBeforeCursor(raw),
            ControlKind::EraseScreen => VT100::EraseScreen(raw),
            ControlKind::PassThrough => VT100::PassThrough(raw),
            ControlKind::HideCursor => VT100::HideCursor(raw),
            ControlKind::ShowCursor => VT100::ShowCursor(raw),
            ControlKind::GetCursorPos => VT100::GetCursorPos(raw),
            ControlKind::EnterApplicationKeyMode => VT100::EnterApplicationKeyMode(raw),
            ControlKind::EnterAltKeypadMode => VT100::EnterAltKeypadMode(raw),
            ControlKind::ExitAltKeypadMode => VT100::ExitAltKeypadMode(raw),
            ControlKind::Unknown => VT100::Unknown(raw),
        }
    }

    /// The kind of the sequence.
    pub fn control_kind(&self) -> (k: ControlKind)
        ensures
            k == self.kind(),
    {
        match self {
            VT100::ScrollDown(_) => ControlKind::ScrollDown,
            VT100::ScrollUp(_) => ControlKind::ScrollUp,
            VT100::SGR(_) => ControlKind::SGR,
            VT100::MoveCursor(_) => ControlKind::MoveCursor,
            VT100::MoveCursorApp(_) => ControlKind::MoveCursorApp,
            VT100::ClearLine(_) => ControlKind::ClearLine,
            VT100::EraseLineAfterCursor(_) => ControlKind::EraseLineAfterCursor,
            VT100::EraseLineBeforeCursor(_) => ControlKind::EraseLineBeforeCursor,
            VT100::EraseScreen(_) => ControlKind::EraseScreen,
            VT100::PassThrough(_) => ControlKind::PassThrough,
            VT100::HideCursor(_) => ControlKind::HideCursor,
            VT100::ShowCursor(_) => ControlKind::ShowCursor,
            VT100::GetCursorPos(_) => ControlKind::GetCursorPos,
            VT100::EnterApplicationKeyMode(_) => ControlKind::EnterApplicationKeyMode,
            VT100::EnterAltKeypadMode(_) => ControlKind::EnterAltKeypadMode,
            VT100::ExitAltKeypadMode(_) => ControlKind::ExitAltKeypadMode,
            VT100::Unknown(_) => ControlKind::Unknown,
        }
    }

    /// The characters the sequence was received as.
    pub fn to_string(&self) -> (s: String)
        ensures
            s@ == self.raw(),
    {
        match self {
            VT100::ScrollDown(s) => s.clone(),
            VT100::ScrollUp(s) => s.clone(),
            VT100::SGR(s) => s.clone(),
            VT100::MoveCursor(s) => s.clone(),
            VT100::MoveCursorApp(s) => s.clone(),
            VT100::ClearLine(s) => s.clone(),
            VT100::EraseLineBeforeCursor(s) => s.clone(),
            VT100::EraseLineAfterCursor(s) => s.clone(),
            VT100::EraseScreen(s) => s.clone(),
            VT100::HideCursor(s) => s.clone(),
            VT100::ShowCursor(s) => s.clone(),
            VT100::PassThrough(s) => s.clone(),
            VT100::GetCursorPos(s) => s.clone(),
            VT100::Unknown(s) => s.clone(),
            VT100::EnterApplicationKeyMode(s) => s.clone(),
            VT100::EnterAltKeypadMode(s) => s.clone(),
            VT100::ExitAltKeypadMode(s) => s.clone(),
        }
    }

    /// Sorts the control sequence `s` by its form. Only the empty string is
    /// refused.
    pub fn from_str(s: &str) -> (r: Result<VT100, TerminalError>)
        ensures
            s@.len() == 0 ==> r == Err::<VT100, TerminalError>(TerminalError::MalformedEscape),
            s@.len() > 0 ==> r is Ok && r->Ok_0.kind() == classify(s@) && r->Ok_0.raw() == s@,
    {
        let chars = chars_of(s);
        if chars.len() == 0 {
            return Err(TerminalError::MalformedEscape);
        }
        let kind = kind_of(&chars);
        Ok(VT100::of(kind, String::from_str(s)))
    }
}

impl View for TerminalOutput {
    type V = Token;

    open spec fn view(&self) -> Token {
        match self {
            TerminalOutput::Plaintext(s) => Token { kind: None, raw: s@ },
            TerminalOutput::CSI(v) => Token { kind: Some(v.kind()), raw: v.raw() },
        }
    }
}

impl TerminalOutput {
    /// The characters the token was received as.
    pub fn to_string(&self) -> (s: String)
        ensures
            s@ == self@.raw,
    {
        match self {
            TerminalOutput::Plaintext(s) => s.clone(),
            TerminalOutput::CSI(v) => v.to_string(),
        }
    }

    /// Whether the token holds no character.
    pub fn is_empty(&self) -> (r: bool)
        ensures
            r == (self@.raw.len() == 0),
    {
        match self {
            TerminalOutput::Plaintext(s) => s.as_str().unicode_len() == 0,
            TerminalOutput::CSI(v) => v.to_string().as_str().unicode_len() == 0,
        }
    }
}

/// Whether `v` holds exactly the characters of `pattern`.
pub fn same_chars(v: &Vec<char>, pattern: &Vec<char>) -> (r: bool)
    ensures
        r == (v@ == pattern@),
{
    if v.len() != pattern.len() {
        return false;
    }
    let mut i: usize = 0;
    while i < v.len()
        invariant
            i <= v.len(),
            v.len() == pattern.len(),
            forall|k: int| 0 <= k < i ==> v@[k] == pattern@[k],
        decreases v.len() - i,
    {
        if v[i] != pattern[i] {
            return false;
        }
        i += 1;
    }
    assert(v@ =~= pattern@);
    true
}

/// The kind of the control sequence `s`, see [`classify`].
pub fn kind_of(s: &Vec<char>) -> (k: ControlKind)
    requires
        s.len() > 0,
    ensures
        k == classify(s@),
{
    let n = s.len();
    let last = s[n - 1];
    let is_move = last == 'H' || last == 'f' || last == 'A' || last == 'B' || last == 'C' || last
        == 'D';
    let has_second = n >= 2 && s[0] == ESC;
    if same_chars(s, &vec![ESC, 'M']) {
        ControlKind::ScrollDown
    } else if same_chars(s, &vec![ESC, 'D']) {
        ControlKind::ScrollUp
    } else if last == 'm' {
        ControlKind::SGR
    } else if is_move && has_second && s[1] == 'O' {
        ControlKind::MoveCursorApp
    } else if is_move && has_second && s[1] == '[' {
        ControlKind::MoveCursor
    } else if last == 'J' {
        ControlKind::EraseScreen
    } else if same_chars(s, &vec![ESC, '[', '1', 'K']) {
        ControlKind::EraseLineBeforeCursor
    } else if same_chars(s, &vec![ESC, '[', '2', 'K']) {
        ControlKind::ClearLine
    } else if same_chars(s, &vec![ESC, '[', 'K']) || same_chars(s, &vec![ESC, '[', '0', 'K']) {
        ControlKind::EraseLineAfterCursor
    } else if same_chars(s, &vec![ESC, '[', '?', '1', 'h']) {
        ControlKind::EnterApplicationKeyMode
    } else if same_chars(s, &vec![ESC, '[', '?', '2', '5', 'l']) {
        ControlKind::HideCursor
    } else if same_chars(s, &vec![ESC, '[', '?', '2', '5', 'h']) {
        ControlKind::ShowCursor
    } else if same_chars(s, &vec![ESC, '[', '6', 'n']) {
        ControlKind::GetCursorPos
    } else if last == 'h' || last == 'l' || last == 'n' || last == 'r' {
        ControlKind::PassThrough
    } else if has_second && s[1] == 'k' {
        ControlKind::ClearLine
    } else {
        ControlKind::Unknown
    }
}

} // verus!
