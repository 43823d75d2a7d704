use decker::glyph_string::{Glyph, GlyphString};
use decker::style::PrintStyle;

#[test]
fn glyph_string_it_writes_lines_at_offset() {
    let mut g = GlyphString::new();
    let ps = PrintStyle::default();

    g.push("a line of text", &ps);

    let mut output = Vec::new();
    g.write(1, 3, 14, &ps, &mut output).unwrap();

    assert_eq!(output, b"\x1b[3;1Ha line of text");
}

#[test]
fn glyph_string_it_right_pads_with_spaces() {
    let mut g = GlyphString::new();
    let ps = PrintStyle::default();

    g.push("a line of text", &ps);

    let mut output = Vec::new();
    g.write(1, 3, 15, &ps, &mut output).unwrap();

    assert_eq!(output, b"\x1b[3;1Ha line of text ");
}

#[test]
fn glyph_string_it_respects_glyph_styles() {
    let mut g = GlyphString::new();
    let mut ps = PrintStyle::default();
    ps.apply_vt100("\x1b[32m").unwrap();

    g.push("a line", &ps);

    ps.apply_vt100("\x1b[37m").unwrap();

    g.push(" of text", &ps);

    let mut output = Vec::new();
    g.write(1, 3, 14, &ps, &mut output).unwrap();

    assert_eq!(std::str::from_utf8(&output).unwrap(), "\x1b[3;1H\x1b[32ma line\x1b[37m of text");
}

#[test]
fn glyph_string_it_clears_leading_chars() {
    let mut g = GlyphString::new();
    let ps = PrintStyle::default();

    g.push("a line of text", &ps);

    g.clear_to(6);

    assert_eq!(g.to_str(&ps), "       of text")
}

#[test]
fn glyph_string_it_deletes_leading_chars() {
    let mut g = GlyphString::new();
    let ps = PrintStyle::default();

    g.push("a line of text", &ps);

    g.delete_to(6);

    assert_eq!(g.to_str(&ps), " of text")
}

#[test]
fn glyph_string_it_clears_all_chars() {
    let mut g = GlyphString::new();
    let ps = PrintStyle::default();

    g.push("a line of text", &ps);

    g.clear();

    assert_eq!(g.to_str(&ps), "");
}

#[test]
fn glyph_string_it_clears_following_chars() {
    let mut g = GlyphString::new();
    let ps = PrintStyle::default();

    g.push("a line of text", &ps);

    g.clear_after(6);

    assert_eq!(g.to_str(&ps), "a line        ");
}

#[test]
fn it_recognizes_non_fill_chars() {
    let g = Glyph::new('\x0F', PrintStyle::default());
    assert_eq!(g.is_fill(), false)
}

#[test]
fn it_recognizes_esc_as_a_non_fill_char() {
    let g = Glyph::new('\x1B', PrintStyle::default());
    assert_eq!(g.is_fill(), false)
}

#[test]
fn it_recognizes_fill_chars() {
    let g = Glyph::new(' ', PrintStyle::default());
    assert_eq!(g.is_fill(), true)
}

#[test]
fn it_recognizes_alhpa_fill_chars() {
    let g = Glyph::new('a', PrintStyle::default());
    assert_eq!(g.is_fill(), true)
}

#[test]
fn it_writes_lines_at_offset() {
    let mut g = GlyphString::new();
    let ps = PrintStyle::default();

    g.push("a line of text", &ps);

    let mut output = Vec::new();
    g.write(1, 3, 14, &ps, &mut output).unwrap();

    assert_eq!(output, b"\x1b[3;1Ha line of text");
}

#[test]
fn it_right_pads_with_spaces() {
    let mut g = GlyphString::new();
    let ps = PrintStyle::default();

    g.push("a line of text", &ps);

    let mut output = Vec::new();
    g.write(1, 3, 15, &ps, &mut output).unwrap();

    assert_eq!(output, b"\x1b[3;1Ha line of text ");
}

#[test]
fn it_respects_glyph_styles() {
    let mut g = GlyphString::new();
    let mut ps = PrintStyle::default();
    ps.apply_vt100("\x1b[32m").unwrap();

    g.push("a line", &ps);

    ps.apply_vt100("\x1b[37m").unwrap();

    g.push(" of text", &ps);

    let mut output = Vec::new();
    g.write(1, 3, 14, &ps, &mut output).unwrap();

    assert_eq!(std::str::from_utf8(&output).unwrap(), "\x1b[3;1H\x1b[32ma line\x1b[37m of text");
}

#[test]
fn it_clears_leading_chars() {
    let mut g = GlyphString::new();
    let ps = PrintStyle::default();

    g.push("a line of text", &ps);

    g.clear_to(6);

    assert_eq!(g.to_str(&ps), "       of text")
}

#[test]
fn it_deletes_leading_chars() {
    let mut g = GlyphString::new();
    let ps = PrintStyle::default();

    g.push("a line of text", &ps);

    g.delete_to(6);

    assert_eq!(g.to_str(&ps), " of text")
}

#[test]
fn it_clears_all_chars() {
    let mut g = GlyphString::new();
    let ps = PrintStyle::default();

    g.push("a line of text", &ps);

    g.clear();

    assert_eq!(g.to_str(&ps), "");
}

#[test]
fn it_clears_following_chars() {
    let mut g = GlyphString::new();
    let ps = PrintStyle::default();

    g.push("a line of text", &ps);

    g.clear_after(6);

    assert_eq!(g.to_str(&ps), "a line        ");
}

#[test]
fn it_respects_non_printable_chars_when_reporting_length() {
    let mut g = GlyphString::new();
    let ps = PrintStyle::default();

    g.push("\u{f}pi\u{f}:~/\u{f} $", &ps);
    println!("{:?}", g.plaintext());
    assert_eq!(g.raw_len(), 10);
    assert_eq!(g.visible_len(), 6)
}

#[test]
fn it_calculates_offsets_for_non_visible_chars() {
    let mut g = GlyphString::new();
    let ps = PrintStyle::default();

    g.push("\u{f}pi\u{f}:~/\u{f} $", &ps);

    let idxes = (0..g.visible_len()).map(|i| g.visible_idx(i).unwrap()).collect::<Vec<_>>();

    assert_eq!(idxes, vec![1, 2, 4, 6, 8, 9]);
}

#[test]
fn it_respects_non_printable_chars_when_indexing() {
    let mut g = GlyphString::new();
    let ps = PrintStyle::default();

    g.push("\u{f}pi\u{f}:~/\u{f} $", &ps);

    assert_eq!(g.get(0).unwrap().c, 'p');
    assert_eq!(g.get(1).unwrap().c, 'i');
    assert_eq!(g.get(5).unwrap().c, '$');
}
