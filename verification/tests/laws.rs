use korrodium::editor::Editor;
use korrodium::keys::Key;

fn open(text: &[u8]) -> Editor {
    Editor::new("t", 25, 80, Some(text))
}

/// The cursor's position in the text, counted in bytes.
fn offset(e: &Editor) -> usize {
    let mut n = 0;
    for r in 0..e.cursor_row {
        n += e.lines[r].len() + 1;
    }
    n + e.cursor_col
}

#[test]
fn law_open_then_save_roundtrip() {
    let text = b"first\n\nthird line\n".to_vec();
    let e = open(&text);
    assert_eq!(e.contents(), text);
}

#[test]
fn law_save_then_open_gives_lines_back() {
    let mut e = open(b"");
    for c in "ab\ncd\n\nx".chars() {
        e.handle_key(Key::Unicode(c));
    }
    let saved = e.contents();
    let reopened = open(&saved);
    assert_eq!(reopened.lines, e.lines);
}

#[test]
fn law_insert_char_inserts_into_text() {
    let mut e = open(b"ab\ncd");
    e.move_down();
    e.move_right();
    let before = e.contents();
    let off = offset(&e);
    e.insert_char(b'X');
    let mut expected = before.clone();
    expected.insert(off, b'X');
    assert_eq!(e.contents(), expected);
    assert_eq!(offset(&e), off + 1);
}

#[test]
fn law_newline_inserts_into_text() {
    let mut e = open(b"ab\ncd");
    e.move_down();
    e.move_right();
    let off = offset(&e);
    let mut expected = e.contents();
    expected.insert(off, b'\n');
    e.insert_newline();
    assert_eq!(e.contents(), expected);
    assert_eq!(offset(&e), off + 1);
}

#[test]
fn law_backspace_deletes_before_cursor() {
    let mut e = open(b"ab\ncd");
    e.move_down();
    let off = offset(&e);
    let mut expected = e.contents();
    expected.remove(off - 1);
    e.backspace();
    assert_eq!(e.contents(), expected);
    assert_eq!(offset(&e), off - 1);
}

#[test]
fn law_left_and_right_step_through_text() {
    let mut e = open(b"ab\n\ncd");
    let len = e.contents().len();
    let mut steps = 0;
    while offset(&e) < len {
        let off = offset(&e);
        e.move_right();
        assert_eq!(offset(&e), off + 1);
        steps += 1;
    }
    assert_eq!(steps, len);
    e.move_right();
    assert_eq!(offset(&e), len);
    while offset(&e) > 0 {
        let off = offset(&e);
        e.move_left();
        assert_eq!(offset(&e), off - 1);
    }
    e.move_left();
    assert_eq!((e.cursor_row, e.cursor_col), (0, 0));
    assert_eq!(e.contents(), b"ab\n\ncd".to_vec());
    assert!(!e.modified);
}

#[test]
fn law_backspace_undoes_typing_and_enter() {
    let mut e = open(b"hello\nworld");
    e.move_down();
    e.move_right();
    let (lines, row, col) = (e.lines.clone(), e.cursor_row, e.cursor_col);
    e.insert_char(b'Z');
    e.backspace();
    assert_eq!((e.lines.clone(), e.cursor_row, e.cursor_col), (lines.clone(), row, col));
    e.insert_newline();
    e.backspace();
    assert_eq!((e.lines.clone(), e.cursor_row, e.cursor_col), (lines, row, col));
}

#[test]
fn law_keys_never_put_newline_inside_a_line() {
    let mut e = open(b"a");
    for k in [Key::Unicode('\n'), Key::Unicode('\r'), Key::Unicode('b'), Key::Unicode('\x08'), Key::ArrowLeft, Key::Unicode('\n')] {
        e.handle_key(k);
        assert!(e.lines.iter().all(|l| !l.contains(&b'\n')));
        assert!(e.cursor_row < e.lines.len());
        assert!(e.cursor_col <= e.lines[e.cursor_row].len());
    }
}

#[test]
fn law_moves_keep_modified_flag() {
    let mut e = open(b"ab\ncd");
    for k in [Key::ArrowDown, Key::ArrowRight, Key::ArrowUp, Key::ArrowLeft, Key::End, Key::Home] {
        e.handle_key(k);
        assert!(!e.modified);
    }
    e.handle_key(Key::Unicode('q'));
    assert!(e.modified);
    e.save(true);
    e.handle_key(Key::ArrowDown);
    assert!(!e.modified);
}
