use decker::stream_state::StreamState;
use decker::style::TerminalError;
use decker::vt100::{TerminalOutput, VT100};

fn tokens_of(chunks: &[&str]) -> Vec<String> {
    let mut s = StreamState::new();
    let mut out = Vec::new();
    for chunk in chunks {
        s.push(chunk);
        for token in s.consume() {
            out.push(format!("{:?}", token));
        }
    }
    out
}

fn raw_of(input: &str) -> (String, Vec<TerminalOutput>) {
    let mut s = StreamState::new();
    s.push(input);
    let tokens = s.consume();
    (tokens.iter().map(|t| t.to_string()).collect::<Vec<String>>().join(""), tokens)
}

#[test]
fn a_sequence_cut_at_any_place_behind_its_introducer_is_one_token() {
    let sequence = "\x1b[38;2;128;42;255m";
    let whole = tokens_of(&[sequence]);
    assert_eq!(whole, vec![format!("{:?}", TerminalOutput::CSI(VT100::SGR(sequence.to_string())))]);
    for cut in 2..sequence.len() {
        let (a, b) = sequence.split_at(cut);
        assert_eq!(tokens_of(&[a, b]), whole, "cut at {}", cut);
    }
    let one_by_one: Vec<String> = sequence.chars().skip(2).map(|c| c.to_string()).collect();
    let mut chunks: Vec<&str> = vec!["\x1b["];
    chunks.extend(one_by_one.iter().map(|s| s.as_str()));
    assert_eq!(tokens_of(&chunks), whole);
}

#[test]
fn parsing_loses_no_character() {
    let inputs = [
        "plain",
        "a\x1b[1mb\x1b[0m",
        "\x1bM\x1bD\x1b[2J\x1b[10;20H",
        "\x1bXabc",
        "x\x1b",
        "\x1bktitle\x1b\\after",
        "caf\u{e9} \u{20ac}\x1b[?25l",
    ];
    for input in inputs.iter() {
        let (raw, _) = raw_of(input);
        assert_eq!(raw, *input);
    }
    let mut s = StreamState::new();
    s.push("abc\x1b[3");
    let tokens = s.consume();
    assert_eq!(tokens.iter().map(|t| t.to_string()).collect::<String>(), "abc");
    s.push("1m");
    let tokens = s.consume();
    assert_eq!(tokens.iter().map(|t| t.to_string()).collect::<String>(), "\x1b[31m");
}

#[test]
fn text_joins_the_plain_text_before_it() {
    let (_, tokens) = raw_of("ab\x1bXcd\x1b[1mef");
    let shown: Vec<String> = tokens.iter().map(|t| format!("{:?}", t)).collect();
    assert_eq!(
        shown,
        vec![
            "Plaintext(\"ab\")".to_string(),
            "Plaintext(\"\\u{1b}Xcd\")".to_string(),
            "CSI(SGR(\"\\u{1b}[1m\"))".to_string(),
            "Plaintext(\"ef\")".to_string(),
        ]
    );
}

#[test]
fn sequences_are_sorted_by_their_form() {
    let cases: Vec<(&str, fn(&VT100) -> bool)> = vec![
        ("\x1bM", |v| matches!(v, VT100::ScrollDown(_))),
        ("\x1bD", |v| matches!(v, VT100::ScrollUp(_))),
        ("\x1b[3D", |v| matches!(v, VT100::MoveCursor(_))),
        ("\x1b[1;31m", |v| matches!(v, VT100::SGR(_))),
        ("\x1b[H", |v| matches!(v, VT100::MoveCursor(_))),
        ("\x1b[2;3f", |v| matches!(v, VT100::MoveCursor(_))),
        ("\x1b[A", |v| matches!(v, VT100::MoveCursor(_))),
        ("\x1bOA", |v| matches!(v, VT100::MoveCursorApp(_))),
        ("\x1bOD", |v| matches!(v, VT100::MoveCursorApp(_))),
        ("\x1b[J", |v| matches!(v, VT100::EraseScreen(_))),
        ("\x1b[2J", |v| matches!(v, VT100::EraseScreen(_))),
        ("\x1b[2K", |v| matches!(v, VT100::ClearLine(_))),
        ("\x1bktitle\x1b\\", |v| matches!(v, VT100::ClearLine(_))),
        ("\x1b[1K", |v| matches!(v, VT100::EraseLineBeforeCursor(_))),
        ("\x1b[K", |v| matches!(v, VT100::EraseLineAfterCursor(_))),
        ("\x1b[0K", |v| matches!(v, VT100::EraseLineAfterCursor(_))),
        ("\x1b[?25l", |v| matches!(v, VT100::HideCursor(_))),
        ("\x1b[?25h", |v| matches!(v, VT100::ShowCursor(_))),
        ("\x1b[6n", |v| matches!(v, VT100::GetCursorPos(_))),
        ("\x1b[?1h", |v| matches!(v, VT100::EnterApplicationKeyMode(_))),
        ("\x1b[?2004h", |v| matches!(v, VT100::PassThrough(_))),
        ("\x1b[1;5r", |v| matches!(v, VT100::PassThrough(_))),
        ("\x1b[5n", |v| matches!(v, VT100::PassThrough(_))),
        ("\x1b[3K", |v| matches!(v, VT100::Unknown(_))),
        ("\x1b[2M", |v| matches!(v, VT100::Unknown(_))),
        ("\x1b[L", |v| matches!(v, VT100::Unknown(_))),
        ("\x1b[5q", |v| matches!(v, VT100::Unknown(_))),
    ];
    for (raw, is_kind) in cases.iter() {
        let v = VT100::from_str(raw).unwrap();
        assert!(is_kind(&v), "{:?} became {:?}", raw, v);
        assert_eq!(v.to_string(), *raw);
    }
    assert_eq!(VT100::from_str("").err(), Some(TerminalError::MalformedEscape));
}

#[test]
fn a_title_sequence_waits_for_its_end() {
    let mut s = StreamState::new();
    s.push("\x1bkmy title");
    assert!(s.consume().is_empty());
    s.push("\x1b");
    assert!(s.consume().is_empty());
    s.push("\\");
    let tokens = s.consume();
    assert_eq!(tokens.len(), 1);
    assert!(matches!(&tokens[0], TerminalOutput::CSI(VT100::ClearLine(_))));
    assert!(!tokens[0].is_empty());
}
