use decker::style::{Color, PrintStyle};

#[test]
fn it_converts_simple_vt100_sgr_to_print_state() {
    let code = "\x1b[33m";
    let mut ps = PrintStyle::default();
    ps.apply_vt100(code).unwrap();
    assert_eq!(ps.foreground, Color::Yellow);
}

#[test]
fn pane_it_converts_simple_vt100_sgr_to_print_state() {
    let code = "\x1b[33m";
    let mut ps = PrintStyle::default();
    ps.apply_vt100(code).unwrap();
    assert_eq!(ps.foreground, Color::Yellow);
}

#[test]
fn it_converts_bold_vt100_sgr_to_print_state() {
    let code = "\x1b[93m";
    let mut ps = PrintStyle::default();
    ps.apply_vt100(code).unwrap();
    assert_eq!(ps.foreground, Color::Yellow);
    assert_eq!(ps.bold, true);
}

#[test]
fn pane_it_converts_bold_vt100_sgr_to_print_state() {
    let code = "\x1b[93m";
    let mut ps = PrintStyle::default();
    ps.apply_vt100(code).unwrap();
    assert_eq!(ps.foreground, Color::Yellow);
    assert_eq!(ps.bold, true);
}

#[test]
fn it_converts_background_vt100_sgr_to_print_state() {
    let code = "\x1b[43m";
    let mut ps = PrintStyle::default();
    ps.apply_vt100(code).unwrap();
    assert_eq!(ps.background, Color::Yellow);
}

#[test]
fn pane_it_converts_background_vt100_sgr_to_print_state() {
    let code = "\x1b[43m";
    let mut ps = PrintStyle::default();
    ps.apply_vt100(code).unwrap();
    assert_eq!(ps.background, Color::Yellow);
}

#[test]
fn it_converts_256_color_vt100_sgr_to_print_state() {
    let code = "\x1b[38;5;128m";
    let mut ps = PrintStyle::default();
    ps.apply_vt100(code).unwrap();
    assert_eq!(ps.foreground, Color::TWOFIFTYSIX(128));
}

#[test]
fn pane_it_converts_256_color_vt100_sgr_to_print_state() {
    let code = "\x1b[38;5;128m";
    let mut ps = PrintStyle::default();
    ps.apply_vt100(code).unwrap();
    assert_eq!(ps.foreground, Color::TWOFIFTYSIX(128));
}

#[test]
fn it_converts_rgb_color_vt100_sgr_to_print_state() {
    let code = "\x1b[38;2;128;42;255m";
    let mut ps = PrintStyle::default();
    ps.apply_vt100(code).unwrap();
    assert_eq!(ps.foreground, Color::RGB(128, 42, 255));
}

#[test]
fn pane_it_converts_rgb_color_vt100_sgr_to_print_state() {
    let code = "\x1b[38;2;128;42;255m";
    let mut ps = PrintStyle::default();
    ps.apply_vt100(code).unwrap();
    assert_eq!(ps.foreground, Color::RGB(128, 42, 255));
}

#[test]
fn it_converts_state_back_into_vt100() {
    let fg_code = "\x1b[38;2;128;42;255m";
    let bg_code = "\x1b[47m";
    let mut ps = PrintStyle::default();
    ps.apply_vt100(fg_code).unwrap();
    ps.apply_vt100(bg_code).unwrap();

    assert_eq!(ps.to_str(), fg_code.to_owned() + bg_code);
}

#[test]
fn pane_it_converts_state_back_into_vt100() {
    let fg_code = "\x1b[38;2;128;42;255m";
    let bg_code = "\x1b[47m";
    let mut ps = PrintStyle::default();
    ps.apply_vt100(fg_code).unwrap();
    ps.apply_vt100(bg_code).unwrap();

    assert_eq!(ps.to_str(), fg_code.to_owned() + bg_code);
}

#[test]
fn it_applies_multiple_codes_at_once() {
    let code = "\x1b[;1;33;42m";
    let mut ps = PrintStyle::default();
    ps.apply_vt100(code).unwrap();

    assert_eq!(ps.foreground, Color::Yellow);
    assert_eq!(ps.background, Color::Green);
}

#[test]
fn pane_it_applies_multiple_codes_at_once() {
    let code = "\x1b[;1;33;42m";
    let mut ps = PrintStyle::default();
    ps.apply_vt100(code).unwrap();

    assert_eq!(ps.foreground, Color::Yellow);
    assert_eq!(ps.background, Color::Green);
}

#[test]
fn it_finds_diff_between_states() {
    let mut red_on_black = PrintStyle::default();
    red_on_black.apply_vt100("\x1b[33m").unwrap();

    let mut red_on_cyan = PrintStyle::default();
    red_on_cyan.apply_vt100("\x1b[33m").unwrap();
    red_on_cyan.apply_vt100("\x1b[46m").unwrap();

    assert_eq!(red_on_black.diff_str(&red_on_cyan), "\x1b[46m");
}

#[test]
fn pane_it_finds_diff_between_states() {
    let mut red_on_black = PrintStyle::default();
    red_on_black.apply_vt100("\x1b[33m").unwrap();

    let mut red_on_cyan = PrintStyle::default();
    red_on_cyan.apply_vt100("\x1b[33m").unwrap();
    red_on_cyan.apply_vt100("\x1b[46m").unwrap();

    assert_eq!(red_on_black.diff_str(&red_on_cyan), "\x1b[46m");
}

#[test]
fn it_turns_off_underline() {
    let default = PrintStyle::default();
    let mut underlined = PrintStyle::default();
    underlined.apply_vt100("\x1b[4m").unwrap();

    assert_eq!(underlined.diff_str(&default), "\x1b[24m".to_owned());
}

#[test]
fn pane_it_turns_off_underline() {
    let default = PrintStyle::default();
    let mut underlined = PrintStyle::default();
    underlined.apply_vt100("\x1b[4m").unwrap();

    assert_eq!(underlined.diff_str(&default), "\x1b[24m".to_owned());
}

#[test]
fn it_turns_off_blink() {
    let default = PrintStyle::default();
    let mut blinking = PrintStyle::default();
    blinking.apply_vt100("\x1b[5m").unwrap();

    assert_eq!(blinking.diff_str(&default), "\x1b[25m".to_owned());
}

#[test]
fn pane_it_turns_off_blink() {
    let default = PrintStyle::default();
    let mut blinking = PrintStyle::default();
    blinking.apply_vt100("\x1b[5m").unwrap();

    assert_eq!(blinking.diff_str(&default), "\x1b[25m".to_owned());
}

#[test]
fn it_turns_off_italics() {
    let default = PrintStyle::default();
    let mut blinking = PrintStyle::default();
    blinking.apply_vt100("\x1b[3m").unwrap();

    assert_eq!(blinking.diff_str(&default), "\x1b[23m".to_owned());
}

#[test]
fn pane_it_turns_off_italics() {
    let default = PrintStyle::default();
    let mut blinking = PrintStyle::default();
    blinking.apply_vt100("\x1b[3m").unwrap();

    assert_eq!(blinking.diff_str(&default), "\x1b[23m".to_owned());
}
