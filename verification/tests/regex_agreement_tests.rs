//! The grammars of this crate, held against the regular expressions that
//! write the same grammars down.

use decker::pane::Pane;
use decker::stream_state::StreamState;
use decker::style::PrintStyle;
use decker::task::read_period;
use decker::vt100::TerminalOutput;
use decker::vt100_string::VT100String;
use regex::Regex;

/// Every text over `alphabet` of at most `max_len` characters.
fn texts(alphabet: &[char], max_len: usize) -> Vec<String> {
    let mut all = vec![String::new()];
    let mut last = vec![String::new()];
    for _ in 0..max_len {
        let mut next = Vec::new();
        for text in last.iter() {
            for c in alphabet {
                let mut longer = text.clone();
                longer.push(*c);
                next.push(longer);
            }
        }
        all.extend(next.iter().cloned());
        last = next;
    }
    all
}

/// A parser that decides with regular expressions where a sequence begins
/// and where it is complete.
struct Patterns {
    beginning: Regex,
    sequence: Regex,
    scroll: Regex,
}

impl Patterns {
    fn new() -> Patterns {
        Patterns {
            beginning: Regex::new(r"\x1b[\[\x9b>=MD]").unwrap(),
            sequence: Regex::new(r"\x1b[\[\x9b>=MD]([0-?]*[ -/]*[@-~>=])").unwrap(),
            scroll: Regex::new(r"\x1b[MD]").unwrap(),
        }
    }
}

struct Reference<'a> {
    patterns: &'a Patterns,
    buffer: String,
    vetted: Vec<(bool, String)>,
    found_esc: bool,
}

impl<'a> Reference<'a> {
    fn new(patterns: &'a Patterns) -> Reference<'a> {
        Reference {
            patterns,
            buffer: String::new(),
            vetted: Vec::new(),
            found_esc: false,
        }
    }

    fn is_esc_seq(&self) -> bool {
        self.patterns.beginning.is_match(&self.buffer)
    }

    fn is_esc_seq_complete(&self) -> bool {
        self.is_esc_seq()
            && (self.patterns.sequence.is_match(&self.buffer) || self.patterns.scroll.is_match(&self.buffer))
    }

    fn consume_buffer(&mut self) {
        let complete = self.is_esc_seq_complete();
        self.vetted.push((complete, self.buffer.clone()));
        self.buffer.clear();
    }

    fn push(&mut self, input: &str) {
        for c in input.chars() {
            if !self.found_esc {
                if c == '\x1b' {
                    self.consume_buffer();
                    self.buffer.push(c);
                    self.found_esc = true;
                } else {
                    match self.vetted.pop() {
                        Some((false, mut text)) => {
                            text.push(c);
                            self.vetted.push((false, text));
                        }
                        Some(sequence) => {
                            self.vetted.push(sequence);
                            self.vetted.push((false, c.to_string()));
                        }
                        None => self.vetted.push((false, c.to_string())),
                    }
                }
            } else {
                self.buffer.push(c);
                let not_an_esc_seq = self.buffer.chars().count() == 2 && !self.is_esc_seq();
                if not_an_esc_seq || self.is_esc_seq_complete() {
                    self.consume_buffer();
                    self.found_esc = false;
                }
            }
        }
    }

    fn tokens(&self) -> Vec<(bool, String)> {
        self.vetted.iter().filter(|t| !t.1.is_empty()).cloned().collect()
    }
}

fn tokens_of(parser: &mut StreamState) -> Vec<(bool, String)> {
    parser
        .consume()
        .iter()
        .map(|t| (matches!(t, TerminalOutput::CSI(_)), t.to_string()))
        .collect()
}

#[test]
fn the_parser_cuts_as_the_regular_expressions_do() {
    let alphabet = ['\x1b', '[', '1', ';', '?', ' ', 'm', 'M', 'D', '>', '=', 'x', '\u{9b}', '\n'];
    let mut compared = 0;
    let patterns = Patterns::new();
    for text in texts(&alphabet, 4) {
        let mut reference = Reference::new(&patterns);
        reference.push(&text);
        let mut parser = StreamState::new();
        parser.push(&text);
        assert_eq!(parser.is_esc_seq(), reference.is_esc_seq(), "for {:?}", text);
        let lone_escape = reference.buffer == "\x1b";
        let mut expected = reference.tokens();
        if lone_escape {
            expected.push((false, "\x1b".to_string()));
        }
        assert_eq!(parser.is_complete(), !expected.is_empty(), "for {:?}", text);
        assert_eq!(tokens_of(&mut parser), expected, "for {:?}", text);
        compared += 1;
    }
    assert_eq!(compared, 1 + 14 + 14 * 14 + 14 * 14 * 14 + 14 * 14 * 14 * 14);
}

#[test]
fn longer_sequences_are_cut_as_the_regular_expressions_do() {
    let inputs = [
        "\x1b[38;2;128;42;255mtext\x1b[0m",
        "\x1b[?2004h\x1b[1;24r\x1b[H\x1b[2J",
        "a\x1b[1\x1b[2mb",
        "\x1b[1 !q\x1b[>0c\x1b[=1c",
        "\x1b\x1b[m\x1bM\x1bD\x1b>x\x1b=y",
        "\x1b[\x07m done",
        "\u{9b}1m \x1b\u{9b}1m",
    ];
    let patterns = Patterns::new();
    for input in inputs.iter() {
        for cut in 0..=input.chars().count() {
            let head: String = input.chars().take(cut).collect();
            let mut reference = Reference::new(&patterns);
            reference.push(&head);
            if reference.buffer.ends_with('\x1b') {
                continue;
            }
            let mut parser = StreamState::new();
            parser.push(&head);
            assert_eq!(tokens_of(&mut parser), reference.tokens(), "for {:?}", head);
        }
    }
}

#[test]
fn sgr_parameters_are_read_as_the_regular_expression_reads_them() {
    let pattern = Regex::new("\x1b\\[([0-9;]*)%?m").unwrap();
    let alphabet = ['1', '3', '0', '9', ';', '%', 'x'];
    for body in texts(&alphabet, 5) {
        let raw = format!("\x1b[{}m", body);
        let mut style = PrintStyle::default();
        style.apply_vt100("\x1b[4;44m").unwrap();
        let before = style;
        let result = style.apply_vt100(&raw);
        match pattern.captures(&raw) {
            None => {
                assert!(result.is_err(), "for {:?}", raw);
                assert_eq!(style, before);
            }
            Some(captures) => {
                let params: Vec<String> = captures
                    .get(1)
                    .unwrap()
                    .as_str()
                    .split(";")
                    .map(|a| a.to_string().parse::<u8>())
                    .filter_map(|p| p.ok())
                    .map(|p| p.to_string())
                    .collect();
                let plain = format!("\x1b[{}m", params.join(";"));
                let mut expected = before;
                let expected_result = expected.apply_vt100(&plain);
                assert_eq!(result, expected_result, "for {:?}", raw);
                assert_eq!(style, expected, "for {:?}", raw);
            }
        }
    }
}

#[test]
fn cursor_parameters_are_read_as_the_regular_expressions_read_them() {
    let home = Regex::new("\x1b\\[(\\d*);?(\\d*).").unwrap();
    let amount = Regex::new("\x1b\\[(\\d*).").unwrap();
    let digits = texts(&['0', '1', '7', '9'], 5);
    for first in digits.iter() {
        for last_char in ['A', 'B', 'C', 'D'] {
            let raw = format!("\x1b[{}{}", first, last_char);
            let captures = amount.captures(&raw).unwrap();
            let expected = captures.get(1).unwrap().as_str().parse::<u16>().unwrap_or(1);
            assert_eq!(Pane::cursor_move_amount(&raw), Ok(expected), "for {:?}", raw);
        }
        for last_char in ['J', 'K'] {
            let raw = format!("\x1b[{}{}", first, last_char);
            let captures = amount.captures(&raw).unwrap();
            let text = captures.get(1).unwrap().as_str();
            let expected = if text.is_empty() { None } else { text.parse::<u16>().ok() };
            assert_eq!(Pane::deletion_type(&raw), expected, "for {:?}", raw);
        }
    }
    let short = texts(&['0', '1', '7'], 3);
    for first in short.iter() {
        for second in short.iter() {
            for separator in ["", ";"] {
                let raw = format!("\x1b[{}{}{}H", first, separator, second);
                let captures = home.captures(&raw).unwrap();
                let row = captures.get(1).unwrap().as_str().parse::<i32>().unwrap_or(1);
                let col = captures.get(2).unwrap().as_str().parse::<i32>().unwrap_or(1);
                let mut pane = Pane::new("p", 1, 1, 1000, 1000);
                pane.move_cursor(&raw).unwrap();
                let expected = (row.clamp(1, 1000), col.clamp(1, 1000));
                assert_eq!(
                    (pane.cursor().row(), pane.cursor().col()),
                    expected,
                    "for {:?}",
                    raw
                );
            }
        }
    }
}

#[test]
fn periods_are_read_as_the_regular_expression_reads_them() {
    let pattern = Regex::new("([0-9]+).*").unwrap();
    let alphabet = ['1', '0', '5', 'h', 'm', 's', ' ', 'x'];
    for period in texts(&alphabet, 5) {
        let expected = pattern.captures(&period).map(|captures| {
            let base = captures.get(1).unwrap().as_str().parse::<u64>().unwrap();
            match period.chars().last() {
                Some('h') => base * 3600,
                Some('m') => base * 60,
                _ => base,
            }
        });
        assert_eq!(read_period(&period), expected, "for {:?}", period);
    }
}

#[test]
fn control_sequences_in_a_text_are_found_as_the_regular_expression_finds_them() {
    let pattern =
        Regex::new(r"((\u001b\[|\u009b)[0-?]*[ -/]*[@-~])+").unwrap();
    let alphabet = ['\x1b', '[', '3', ' ', 'm', 'T', '\u{9b}'];
    for text in texts(&alphabet, 6) {
        let styled = VT100String::new(&text);
        let found: Vec<&str> = pattern.find_iter(&text).map(|m| m.as_str()).collect();
        assert_eq!(styled.vt100codes(), found, "for {:?}", text);
        assert_eq!(styled.plaintext(), pattern.replace_all(&text, ""), "for {:?}", text);
    }
}

#[test]
fn index_maps_are_built_as_from_the_matches_of_the_regular_expression() {
    let pattern =
        Regex::new(r"((\u001b\[|\u009b)[0-?]*[ -/]*[@-~])+").unwrap();
    let alphabet = ['\x1b', '[', '3', 'm', 'T'];
    for text in texts(&alphabet, 7) {
        let mut expected: Vec<usize> = Vec::new();
        if !text.is_empty() {
            let length = text.len();
            let mut matches: Vec<(usize, usize)> =
                pattern.find_iter(&text).map(|m| (m.start(), m.end())).collect();
            let mut ranges: Vec<(usize, usize)> = Vec::new();
            let mut current = (0, length - 1);
            while let Some((start, end)) = matches.pop() {
                current.1 = current.1.min(start);
                ranges.push(current);
                current = (end + 1, length - 1);
            }
            ranges.push(current);
            for (start, end) in ranges {
                for i in start..=end {
                    expected.push(i);
                }
            }
        }
        assert_eq!(VT100String::new(&text).index_map(), expected, "for {:?}", text);
    }
}
