use decker::pane::Pane;
use decker::view_port::ScrollMode;

#[test]
fn pane_it_displays_blank_space_on_creation() {
    let mut pane = Pane::new("p1", 1, 1, 10, 20);
    assert_eq!("\n\n\n\n\n\n\n\n\n", pane.plaintext());
}

#[test]
fn it_displays_blank_space_on_creation() {
    let mut pane = Pane::new("p1", 1, 1, 10, 20);
    assert_eq!("\n\n\n\n\n\n\n\n\n", pane.plaintext());
}

#[test]
fn pane_it_displays_pushed_text() {
    let mut pane = Pane::new("p1", 1, 1, 10, 20);
    pane.push("a line of text").unwrap();
    assert_eq!("a line of text\n\n\n\n\n\n\n\n\n", pane.plaintext());
}

#[test]
fn it_displays_pushed_text() {
    let mut pane = Pane::new("p1", 1, 1, 10, 20);
    pane.push("a line of text").unwrap();
    assert_eq!("a line of text\n\n\n\n\n\n\n\n\n", pane.plaintext());
}

#[test]
fn it_displays_line_at_bottom_of_screen() {
    let mut pane = Pane::new("p1", 1, 1, 5, 10);
    pane.set_scroll_mode(ScrollMode::Fixed);
    pane.push("\x1B[5;1H").unwrap(); // Go to the last line
    pane.push("some text").unwrap();
    assert_eq!("\n\n\n\nsome text", pane.plaintext());
}

#[test]
fn it_moves_the_cursor_horizontally_after_writing() {
    let mut pane = Pane::new("p1", 1, 1, 10, 20);
    pane.push("a line of text").unwrap();
    assert_eq!(1, pane.cursor().row());
    assert_eq!(15, pane.cursor().col());
}

#[test]
fn it_moves_the_cursor_vertically_after_newline() {
    let mut pane = Pane::new("p1", 1, 1, 10, 20);
    pane.push("two lines\nof text").unwrap();
    assert_eq!(2, pane.cursor().row());
    assert_eq!(8, pane.cursor().col());
}

#[test]
fn it_moves_the_cursor_using_vt100_codes() {
    let mut pane = Pane::new("p1", 1, 1, 10, 20);
    pane.push("\x1b[5;7H").unwrap(); // Move to 5, 7

    assert_eq!(5, pane.cursor().row());
    assert_eq!(7, pane.cursor().col());
}

#[test]
fn it_moves_the_cursor_up_using_vt100_codes() {
    let mut pane = Pane::new("p1", 1, 1, 10, 20);
    pane.push("\x1b[5;7H").unwrap(); // Move to 5, 7
    pane.push("\x1b[2A").unwrap();
    pane.push("\x1b[A").unwrap();
    assert_eq!(2, pane.cursor().row());
    assert_eq!(7, pane.cursor().col());
}

#[test]
fn it_moves_the_cursor_down_using_vt100_codes() {
    let mut pane = Pane::new("p1", 1, 1, 10, 20);
    pane.push("\x1b[5;7H").unwrap(); // Move to 5, 7
    pane.push("\x1b[2B").unwrap();
    pane.push("\x1b[B").unwrap();
    assert_eq!(8, pane.cursor().row());
    assert_eq!(7, pane.cursor().col());
}

#[test]
fn it_moves_the_cursor_right_using_vt100_codes() {
    let mut pane = Pane::new("p1", 1, 1, 10, 20);
    pane.push("\x1b[5;7H").unwrap(); // Move to 5, 7
    pane.push("\x1b[2C").unwrap();
    pane.push("\x1b[C").unwrap();
    assert_eq!(5, pane.cursor().row());
    assert_eq!(10, pane.cursor().col());
}

#[test]
fn it_moves_the_cursor_left_using_vt100_codes() {
    let mut pane = Pane::new("p1", 1, 1, 10, 20);
    pane.push("\x1b[5;7H").unwrap(); // Move to 5, 7
    pane.push("\x1b[2D").unwrap();
    pane.push("\x1b[D").unwrap();
    assert_eq!(5, pane.cursor().row());
    assert_eq!(4, pane.cursor().col());
}

#[test]
fn it_moves_the_cursor_and_still_prints_using_vt100_codes() {
    let mut pane = Pane::new("p1", 1, 1, 10, 20);

    // Initial state, let's have a box
    //   AAAAA
    //   BBBBB
    //   CCCCC
    //
    // Then use cursor movements to set the top-left and top right to X, the center to O
    // and the bottom to alternate COCOC

    pane.push("AAAAA\nBBBBB\nCCCCC").unwrap();

    pane.push("\x1b[H").unwrap(); // Home
    pane.push("X").unwrap(); // X in top left
    pane.push("\x1b[1;5H").unwrap();
    pane.push("X").unwrap(); // X in top Right

    // Should have XAAAX in the top row now and cursor is at 1,6
    // Move down and left
    pane.push("\x1b[B").unwrap(); // down one
    pane.push("\x1b[3D").unwrap(); // left 3
    pane.push("O").unwrap();

    // Second row should now be BBOBB and cursor is at 1,4
    // jump to the left and down one
    pane.push("\x1b[3;1f").unwrap(); // row 3, col 1
    pane.push("\x1b[1C").unwrap(); // right one
    pane.push("_").unwrap();
    pane.push("\x1b[C").unwrap(); // right one
    pane.push("_").unwrap();

    assert_eq!("XAAAX\nBBOBB\nC_C_C\n\n\n\n\n\n\n", pane.plaintext());
}
