use decker::vt100_string::VT100String;

#[test]
fn it_does_nothing_to_non_vt100_plain_text() {
    let plaintext = VT100String::new("TEST");
    assert_eq!(plaintext.index_map(), vec![0, 1, 2, 3])
}

#[test]
fn it_keeps_preceding_vt100_values() {
    let plaintext = VT100String::new("\x1b[33mTEST");
    assert_eq!(plaintext.index_map(), vec![0, 6, 7, 8])
}

#[test]
fn it_creates_indices_for_each_char() {
    let plaintext = VT100String::new("\x1b[33mTEST");
    let raw = plaintext.raw();
    let index_map = plaintext.index_map();
    assert_eq!(raw[index_map[0]..(index_map[1])], *"\x1b[33mT");
    assert_eq!(raw[index_map[1]..(index_map[2])], *"E");
    assert_eq!(raw[index_map[2]..(index_map[3])], *"S");
    assert_eq!(raw[index_map[3]..], *"T");
}

#[test]
fn it_indices_mid_vt100_as_expected() {
    let plaintext = VT100String::new("TE\x1b[33mST");
    assert_eq!(plaintext.index_map(), vec![0, 1, 2, 8])
}

#[test]
fn it_merges_multiple_vt100_sequences() {
    let plaintext = VT100String::new("TE\x1b[33m\x1b[HST");
    assert_eq!(plaintext.index_map(), vec![0, 1, 2, 11])
}

#[test]
fn it_slices_taking_vt100_into_account() {
    let vt100text = VT100String::new("TE\x1b[33m\x1b[HST");
    assert_eq!(vt100text.slice(2, vt100text.len()), "\x1b[33m\x1b[HST");
    assert_eq!(vt100text.slice(3, vt100text.len()), "T");
}

#[test]
fn it_replaces_chars_in_mid_str() {
    let mut vt100text = VT100String::new("TE\x1b[33m\x1b[HST");
    vt100text.set(2, 's');
    assert_eq!(vt100text.raw(), "TE\x1b[33m\x1b[HsT")
}

#[test]
fn control_sequences_are_told_from_what_shows() {
    let text = VT100String::new("a\x1b[1m\x1b[31mb\u{9b}2Kc\x1b[");
    assert_eq!(text.plaintext(), "abc\x1b[");
    assert_eq!(text.len(), 5);
    assert_eq!(text.vt100codes(), vec!["\x1b[1m\x1b[31m", "\u{9b}2K"]);
    assert_eq!(text.slice(0, 1), "a");
    assert_eq!(VT100String::new("").index_map(), Vec::<usize>::new());
    assert_eq!(VT100String::new("").plaintext(), "");
}

#[test]
fn setting_behind_the_end_fills_up_with_spaces() {
    let mut text = VT100String::new("ab");
    text.set(4, 'x');
    assert_eq!(text.raw(), "ab  x");
    assert_eq!(text.index_map(), vec![0, 1, 2, 3, 4]);
    text.set(0, 'A');
    assert_eq!(text.raw(), "Ab  x");
}
