use decker::control::{
    command_kind, command_words, compose_command, compose_response, ends_with_exit_marker,
    is_ascii_whitespace, is_interrupt, is_success, is_whitespace, response_payload,
    runs_interactively, split_command, wants_response, CommandKind,
};
use decker::task::{TerminalLocation, TerminalSize};
use decker::vt100_string::VT100String;
use decker::vt100_translator::Vt100Translator;

#[test]
fn commands_are_composed_and_split() {
    assert_eq!(compose_command("execute", "shell"), "execute: shell");
    assert_eq!(compose_command("running", ""), "running: ");
    assert_eq!(split_command("execute: shell"), ("execute".to_string(), "shell".to_string()));
    assert_eq!(split_command("running: "), ("running".to_string(), "".to_string()));
    assert_eq!(split_command("  resize :  {\"a\" : 1 , \"b\":2} "), (
        "resize".to_string(),
        "{\"a\":1 , \"b\":2}".to_string()
    ));
    assert_eq!(split_command("alone"), ("alone".to_string(), "".to_string()));
    assert_eq!(split_command(""), ("".to_string(), "".to_string()));
    assert_eq!(split_command("a::b:"), ("a".to_string(), ":b:".to_string()));
    let message = "local_execute: \u{a0}x\u{2003}";
    assert_eq!(split_command(message), ("local_execute".to_string(), "x".to_string()));
    let parts: Vec<String> = message.split(":").map(|s| s.trim().to_string()).collect();
    assert_eq!(split_command(message), (parts[0].clone(), parts[1..].join(":")));
}

#[test]
fn responses_are_told_by_their_kind() {
    assert_eq!(response_payload("register: Success", "register"), Some(" Success".to_string()));
    assert_eq!(response_payload("register: Success", "resize"), None);
    assert_eq!(response_payload("a: b: c", "a"), Some(" b: c".to_string()));
    assert_eq!(response_payload("a", "a"), Some("".to_string()));
    assert_eq!(response_payload(" a: x", "a"), None);
    assert!(is_success(" Success\n"));
    assert!(is_success("Success"));
    assert!(!is_success("Success!"));
    assert!(!is_success(" Error - not running"));
    assert_eq!(compose_response("resize", None), "resize: Success");
    assert_eq!(compose_response("running", Some("not running")), "running: Error - not running");
}

#[test]
fn commands_are_sorted_by_name() {
    assert_eq!(command_kind("execute"), CommandKind::Execute);
    assert_eq!(command_kind("local_execute"), CommandKind::Execute);
    assert_eq!(command_kind("activate"), CommandKind::Activate);
    assert_eq!(command_kind("register"), CommandKind::Register);
    assert_eq!(command_kind("resize"), CommandKind::Resize);
    assert_eq!(command_kind("running"), CommandKind::Running);
    assert_eq!(command_kind("Execute"), CommandKind::Unsupported);
    assert_eq!(command_kind(""), CommandKind::Unsupported);
    assert!(wants_response("execute"));
    assert!(!wants_response("local_execute"));
    assert!(!wants_response("local"));
    assert!(wants_response("loca"));
    assert!(runs_interactively("shell", Some("shell")));
    assert!(!runs_interactively("shell", Some("other")));
    assert!(!runs_interactively("shell", None));
}

#[test]
fn command_lines_are_cut_into_words() {
    assert_eq!(command_words("ls -la  /tmp"), vec!["ls", "-la", "/tmp"]);
    assert_eq!(command_words("  one\ttwo\nthree\r\x0cfour "), vec!["one", "two", "three", "four"]);
    assert_eq!(command_words("a\u{b}b\u{a0}c"), vec!["a\u{b}b\u{a0}c"]);
    assert_eq!(command_words(""), Vec::<String>::new());
    assert_eq!(command_words(" \t "), Vec::<String>::new());
    for line in ["ls -la  /tmp", " x  y ", "tail -f log/decker.log"] {
        let expected: Vec<String> = line.split_ascii_whitespace().map(|w| w.to_string()).collect();
        assert_eq!(command_words(line), expected);
    }
}

#[test]
fn white_space_is_what_the_standard_library_says() {
    for code in 0..=0x3100u32 {
        if let Some(c) = char::from_u32(code) {
            assert_eq!(is_whitespace(c), c.is_whitespace(), "for {:x}", code);
            assert_eq!(is_ascii_whitespace(c), c.is_ascii_whitespace(), "for {:x}", code);
        }
    }
}

#[test]
fn markers_in_raw_bytes_are_found() {
    assert!(ends_with_exit_marker(&vec![1, 94, 90, 0], 3));
    assert!(!ends_with_exit_marker(&vec![1, 94, 90, 0], 4));
    assert!(!ends_with_exit_marker(&vec![90], 1));
    assert!(!ends_with_exit_marker(&vec![], 0));
    assert!(is_interrupt(&vec![3, 0, 0]));
    assert!(!is_interrupt(&vec![0, 3]));
    assert!(!is_interrupt(&vec![]));
}

#[test]
fn a_translator_keeps_a_parser_for_each_task() {
    let mut translator = Vt100Translator::new();
    translator.register("a".to_string(), TerminalLocation::new(1, 1), TerminalSize::new(2, 3));
    translator.push("a".to_string(), &"text".to_string());
    translator.push("b".to_string(), &"dropped".to_string());
    let mut out: Vec<u8> = vec![7];
    translator.write(&mut out);
    assert_eq!(out, vec![7]);
}

#[test]
fn a_text_is_cut_behind_its_control_sequences() {
    let plain = VT100String::new("plain text");
    assert_eq!(plain.esc_aware_slice(5), (5, "plain".to_string()));
    assert_eq!(plain.esc_aware_slice(10), (10, "plain text".to_string()));
    assert_eq!(plain.esc_aware_slice(99), (10, "plain text".to_string()));
    let styled = VT100String::new("ab\x1b[1mcdef");
    assert_eq!(styled.esc_aware_slice(4), (8, "ab\x1b[1mcd".to_string()));
    assert_eq!(styled.esc_aware_slice(1), (1, "a".to_string()));
    assert_eq!(styled.esc_aware_slice(2), (8, "ab\x1b[1mcd".to_string()));
}
