use decker::cursor::Cursor;
use decker::glyph_string::{Glyph, GlyphString};
use decker::pane::Pane;
use decker::style::{Color, PrintStyle, TerminalError};
use decker::view_port::{DeletionType, ScrollMode, ViewPort};

fn text_of(view: &mut ViewPort) -> Vec<String> {
    view.take_visible_lines().iter().map(|l| l.plaintext()).collect()
}

#[test]
fn cursor_moves_saturate() {
    let mut c = Cursor::new(10, 5);
    assert_eq!((c.x(), c.y(), c.col(), c.row()), (0, 0, 1, 1));
    c.set_x(7);
    c.set_y(9);
    assert_eq!((c.x(), c.y()), (7, 5));
    c.incr_x(2);
    assert_eq!(c.x(), 9);
    c.incr_x(65535);
    assert_eq!(c.x(), 10);
    c.decr_x(3);
    assert_eq!(c.x(), 7);
    c.decr_x(65535);
    assert_eq!(c.x(), 0);
    c.decr_y(2);
    assert_eq!(c.y(), 3);
    c.incr_y(1);
    assert_eq!(c.y(), 4);
    c.incr_y(65535);
    assert_eq!(c.y(), 5);
    c.decr_y(65535);
    assert_eq!(c.y(), 0);
    c.set_x(65535);
    assert_eq!((c.col(), c.row()), (11, 1));
}

#[test]
fn a_new_view_port_is_empty() {
    let mut view = ViewPort::new("v".to_string(), 8, 3, ScrollMode::Scroll);
    assert_eq!((view.width(), view.height()), (8, 3));
    assert_eq!(view.style(), PrintStyle::default());
    assert_eq!(view.cursor_loc(), (1, 1));
    assert!(text_of(&mut view).is_empty());
}

#[test]
fn rows_are_made_when_they_are_addressed() {
    let mut view = ViewPort::new("v".to_string(), 8, 3, ScrollMode::Fixed);
    view.mut_line(1).push("b", &PrintStyle::default());
    assert_eq!(text_of(&mut view), vec!["", "b"]);
    view.cursor_goto(3, 2);
    view.cur_line().push("c", &PrintStyle::default());
    assert_eq!(text_of(&mut view), vec!["", "b", "c"]);
    assert_eq!(view.remove(1).plaintext(), "b");
    assert_eq!(text_of(&mut view), vec!["", "c"]);
}

#[test]
fn writing_below_the_last_row_scrolls_or_is_dropped() {
    let style = PrintStyle::default();
    let mut scroll = ViewPort::new("v".to_string(), 4, 2, ScrollMode::Scroll);
    scroll.cur_line().push("1", &style);
    scroll.newline();
    scroll.cur_line().push("2", &style);
    scroll.newline();
    assert_eq!(scroll.cursor_loc(), (1, 3));
    scroll.cur_line().push("3", &style);
    assert_eq!(scroll.cursor_loc(), (1, 2));
    assert_eq!(text_of(&mut scroll), vec!["2", "3"]);
    scroll.newline();
    scroll.newline();
    assert_eq!(text_of(&mut scroll), vec!["3", ""]);
    scroll.cursor_right(3);
    scroll.newline();
    assert_eq!(scroll.cursor_loc(), (1, 3));
    assert_eq!(text_of(&mut scroll), vec!["", ""]);

    let mut fixed = ViewPort::new("v".to_string(), 4, 2, ScrollMode::Fixed);
    fixed.cur_line().push("1", &style);
    fixed.newline();
    fixed.cur_line().push("2", &style);
    fixed.newline();
    fixed.cursor_right(2);
    fixed.newline();
    assert_eq!(fixed.cursor_loc(), (3, 3));
    fixed.cur_line().push("3", &style);
    assert_eq!(fixed.cursor_loc(), (3, 3));
    assert_eq!(text_of(&mut fixed), vec!["1", "2"]);
    fixed.set_scroll_mode(ScrollMode::Scroll);
    fixed.cur_line().push("4", &style);
    assert_eq!(text_of(&mut fixed), vec!["2", "4"]);
}

#[test]
fn the_cursor_moves_within_the_grid() {
    let mut view = ViewPort::new("v".to_string(), 10, 4, ScrollMode::Fixed);
    view.cursor_goto(2, 3);
    assert_eq!(view.cursor_loc(), (3, 2));
    view.cursor_goto(-5, 0);
    assert_eq!(view.cursor_loc(), (1, 1));
    view.cursor_goto(i32::MAX, i32::MIN);
    assert_eq!(view.cursor_loc(), (1, 4));
    view.cursor_right(20);
    assert_eq!(view.cursor_loc(), (11, 4));
    view.cursor_down(20);
    assert_eq!(view.cursor_loc(), (11, 5));
    view.cursor_left(4);
    view.cursor_up(2);
    assert_eq!(view.cursor_loc(), (7, 3));
    view.cursor_home();
    assert_eq!(view.cursor_loc(), (1, 3));
    assert_eq!((view.cursor().x(), view.cursor().y()), (0, 2));
    let mut none = ViewPort::new("v".to_string(), 0, 0, ScrollMode::Fixed);
    none.cursor_goto(3, 3);
    assert_eq!(none.cursor_loc(), (1, 1));
}

#[test]
fn erasing_clears_rows_and_parts_of_rows() {
    let style = PrintStyle::default();
    let mut view = ViewPort::new("v".to_string(), 10, 3, ScrollMode::Fixed);
    for row in 0..3u16 {
        view.mut_line(row).push("abcdef", &style);
    }
    view.cursor_goto(2, 3);
    view.clear(DeletionType::Unknown("\x1b[9K".to_string()));
    assert_eq!(text_of(&mut view), vec!["abcdef", "abcdef", "abcdef"]);
    view.clear(DeletionType::ClearLineAfterCursor);
    assert_eq!(text_of(&mut view), vec!["abcdef", "ab    ", "abcdef"]);
    view.clear(DeletionType::ClearLineToCursor);
    assert_eq!(text_of(&mut view), vec!["abcdef", "      ", "abcdef"]);
    view.clear(DeletionType::ClearScreenToCursor);
    assert_eq!(text_of(&mut view), vec!["", "      ", "abcdef"]);
    view.clear(DeletionType::ClearLine);
    assert_eq!(text_of(&mut view), vec!["", "", "abcdef"]);
    view.cursor_goto(1, 2);
    view.clear(DeletionType::ClearScreenAfterCursor);
    assert_eq!(text_of(&mut view), vec!["", "", ""]);
    view.mut_line(2).push("xyz", &style);
    view.clear(DeletionType::ClearScreen);
    assert_eq!(text_of(&mut view), vec!["", "", ""]);
    assert_eq!(view.cursor_loc(), (1, 1));
}

#[test]
fn the_style_in_force_follows_the_sequences() {
    let mut view = ViewPort::new("v".to_string(), 10, 3, ScrollMode::Fixed);
    view.apply_style("\x1b[1;34m").unwrap();
    assert_eq!(view.style().foreground, Color::Blue);
    assert!(view.style().bold);
    assert_eq!(view.apply_style("\x1b[38;9m"), Err(TerminalError::MalformedEscape));
    assert_eq!(view.style().foreground, Color::Blue);
    view.apply_style("\x1b[m").unwrap();
    assert_eq!(view.style(), PrintStyle::default());
}

#[test]
fn colours_are_read_from_parameters() {
    assert_eq!(Color::eight_color(34), Color::Blue);
    assert_eq!(Color::eight_color(107), Color::White);
    assert_eq!(Color::eight_color(8), Color::White);
    assert_eq!(Color::Magenta.to_offset(), 5);
    assert_eq!(Color::RGB(1, 2, 3).to_offset(), 255);
    let mut args = vec![5, 200, 1];
    assert_eq!(Color::extended_color(&mut args), Ok(Color::TWOFIFTYSIX(200)));
    assert_eq!(args, vec![1]);
    let mut args = vec![2, 10, 20, 30, 4];
    assert_eq!(Color::extended_color(&mut args), Ok(Color::RGB(10, 20, 30)));
    assert_eq!(args, vec![4]);
    for bad in [vec![], vec![5], vec![2, 1, 2], vec![3, 1, 2, 3]] {
        let mut args = bad.clone();
        assert_eq!(Color::extended_color(&mut args), Err(TerminalError::MalformedEscape));
        assert_eq!(args, bad);
    }
    let mut style = PrintStyle::default();
    style.apply_vt100("\x1b[1;35;48;5;7m").unwrap();
    assert_eq!(style.foreground_string(), "\x1b[95m");
    assert_eq!(style.background_string(), "\x1b[48;5;7m");
    style.reset().unwrap();
    assert_eq!(style, PrintStyle::default());
    assert_eq!(style.foreground_string(), "\x1b[37m");
    assert_eq!(style.background_string(), "\x1b[40m");
}

#[test]
fn rows_keep_track_of_what_has_to_be_drawn() {
    let style = PrintStyle::default();
    let mut row = GlyphString::new();
    assert!(row.dirty());
    assert!(row.empty());
    assert_eq!(row.last_style(), style);
    let mut out: Vec<u8> = Vec::new();
    row.write(2, 3, 4, &style, &mut out).unwrap();
    assert_eq!(out, b"\x1b[3;2H    ");
    assert!(!row.dirty());
    row.make_dirty();
    assert!(row.dirty());

    let mut red = style;
    red.apply_vt100("\x1b[31m").unwrap();
    row.set(2, 'x', &red);
    assert_eq!(row.plaintext(), "  x");
    assert_eq!(row.last_style(), red);
    row.set(5, 'y', &style);
    assert_eq!(row.to_str(&style), "  \x1b[31mx  \x1b[37my");
    assert_eq!(row.len(), 6);
    assert!(!row.empty());
    let mut out: Vec<u8> = Vec::new();
    row.write(1, 1, 4, &style, &mut out).unwrap();
    assert_eq!(String::from_utf8(out).unwrap(), "\x1b[1;1H  \x1b[31mx \x1b[37m");
    assert!(row.dirty());
    let mut out: Vec<u8> = Vec::new();
    row.write(1, 1, 8, &style, &mut out).unwrap();
    assert_eq!(String::from_utf8(out).unwrap(), "\x1b[1;1H  \x1b[31mx  \x1b[37my  ");
    assert!(!row.dirty());
    row.clear_at(0);
    assert!(row.dirty());
    row.delete_at(0);
    row.delete_at(99);
    assert_eq!(row.plaintext(), " x  y");
    row.delete_to(99);
    assert_eq!(row.len(), 0);
    assert_eq!(Glyph::default(), Glyph::new(' ', style));
}

#[test]
fn parameters_of_sequences_are_read_with_defaults() {
    assert_eq!(Pane::cursor_move_amount("\x1b[12A"), Ok(12));
    assert_eq!(Pane::cursor_move_amount("\x1b[A"), Ok(1));
    assert_eq!(Pane::cursor_move_amount("\x1b[0A"), Ok(0));
    assert_eq!(Pane::cursor_move_amount("\x1b[65535A"), Ok(65535));
    assert_eq!(Pane::cursor_move_amount("\x1b[65536A"), Ok(1));
    assert_eq!(Pane::cursor_move_amount("\x1bOA"), Ok(1));
    assert_eq!(Pane::cursor_move_amount(""), Ok(1));
    assert_eq!(Pane::deletion_type("\x1b[2J"), Some(2));
    assert_eq!(Pane::deletion_type("\x1b[J"), None);
    assert_eq!(Pane::deletion_type("\x1b[99999K"), None);
    let mut pane = Pane::new("p", 1, 1, 30, 30);
    pane.move_cursor("\x1b[7;9H").unwrap();
    assert_eq!((pane.cursor().row(), pane.cursor().col()), (7, 9));
    pane.move_cursor("\x1b[;4f").unwrap();
    assert_eq!((pane.cursor().row(), pane.cursor().col()), (1, 4));
    pane.move_cursor("\x1b[3H").unwrap();
    assert_eq!((pane.cursor().row(), pane.cursor().col()), (3, 1));
    pane.move_cursor("\x1b[99999999999;5H").unwrap();
    assert_eq!((pane.cursor().row(), pane.cursor().col()), (1, 5));
    pane.move_cursor("\x1b[2147483647;2147483647H").unwrap();
    assert_eq!((pane.cursor().row(), pane.cursor().col()), (30, 30));
    pane.move_cursor("\x1b[5Z").unwrap();
    assert_eq!((pane.cursor().row(), pane.cursor().col()), (30, 30));
    pane.move_cursor("\x1b[1;1H").unwrap();
    pane.push("text").unwrap();
    pane.move_cursor("\x1b[2D").unwrap();
    pane.delete_text("\x1b[1K").unwrap();
    assert_eq!(pane.plaintext().lines().next(), Some("  xt"));
    pane.delete_text("\x1b[K").unwrap();
    assert_eq!(pane.plaintext().lines().next(), Some("    "));
    pane.push("ab").unwrap();
    pane.delete_text("\x1b[5q").unwrap();
    assert_eq!(pane.plaintext().lines().next(), Some("  ab"));
    pane.delete_text("\x1bktitle\x1b\\").unwrap();
    assert_eq!(pane.plaintext(), "\n".repeat(29));
}
