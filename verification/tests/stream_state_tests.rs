use decker::stream_state::StreamState;
use decker::vt100::TerminalOutput;
use decker::vt100::TerminalOutput::CSI;

fn given_a_blank_stream() -> StreamState {
    StreamState::new()
}

fn given_a_stream_with_chars(chars: &str) -> StreamState {
    let mut s = StreamState::new();
    s.push(chars);
    s
}

fn as_raw_string(output_vec: &Vec<TerminalOutput>) -> String {
    output_vec.iter().map(|c| c.to_string()).collect::<Vec<String>>().join("")
}

#[test]
fn it_detects_an_esc_seq() {
    let mut s = given_a_blank_stream();
    s.push("\x1b[");

    assert!(s.is_esc_seq());
}

#[test]
fn it_detects_plain_text() {
    let mut s = given_a_blank_stream();
    s.push("hi!");

    assert!(!s.is_esc_seq());
}

#[test]
fn it_does_not_detect_an_esc_seq_when_just_an_esc() {
    let s = given_a_stream_with_chars("\x1b");
    assert!(!s.is_esc_seq());
}

#[test]
fn it_detects_when_esc_seq_is_complete() {
    let mut s = given_a_blank_stream();
    s.push("\x1b[");

    assert!(s.is_esc_seq() && !s.is_complete());

    s.push("33m");
    assert!(s.is_complete());
}

#[test]
fn it_says_normal_text_is_complete() {
    let mut s = given_a_blank_stream();
    s.push("normal");

    assert!(!s.is_esc_seq() && s.is_complete());

    s.push(" text");
    assert!(!s.is_esc_seq() && s.is_complete());
}

#[test]
fn it_clears_data_when_consumed() {
    let mut s = given_a_stream_with_chars("some chars");
    assert!(s.is_complete());
    assert_eq!(as_raw_string(&s.consume()), String::from("some chars"));
    assert!(!s.is_complete())
}

#[test]
fn it_remains_complete_when_an_esc_sequence_comes_in() {
    let mut s = given_a_stream_with_chars("some chars");
    s.push("\x1b[");
    assert!(s.is_complete())
}

#[test]
fn it_buffers_the_esc_sequence_when_an_esc_seq_comes_in() {
    let mut s = given_a_stream_with_chars("some chars");
    s.push("\x1b[");
    let out = s.consume();
    assert_eq!(as_raw_string(&out), String::from("some chars"))
}

#[test]
fn it_releases_the_esc_when_it_is_alone() {
    let mut s = given_a_stream_with_chars("some chars");
    s.push("\x1b");
    let out = s.consume();
    assert_eq!(as_raw_string(&out), String::from("some chars\x1b"))
}

#[test]
fn it_recognizes_scroll_commands() {
    let mut s = given_a_stream_with_chars("\x1bM\x1bD");
    let out = s.consume();
    assert!(
        out.iter().all(|s| match s {
            CSI(_) => true,
            _ => false,
        }),
        "not all of {:?} are CSIs!",
        &out
    );
}

#[test]
fn it_recognizes_unusual_csis() {
    let mut s = given_a_stream_with_chars("\x1b[>\x1b[=\x1b=\x1b>\x1b\\");
    let out = s.consume();
    assert!(
        out.iter().all(|s| match s {
            CSI(_) => true,
            _ => false,
        }),
        "not all of {:?} are CSIs!",
        &out
    );
}
