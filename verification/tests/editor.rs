use korrodium::editor::{Command, Editor, EditorAction, RowImage, command_for};
use korrodium::keys::Key;

fn open(text: &[u8]) -> Editor {
    Editor::new("notes.txt", 25, 80, Some(text))
}

fn lines(e: &Editor) -> Vec<Vec<u8>> {
    e.lines.clone()
}

fn type_str(e: &mut Editor, s: &str) {
    for c in s.chars() {
        assert_eq!(e.handle_key(Key::Unicode(c)), EditorAction::Continue);
    }
}

#[test]
fn new_splits_file_at_newlines() {
    let e = open(b"ab\ncd\n");
    assert_eq!(lines(&e), vec![b"ab".to_vec(), b"cd".to_vec(), Vec::new()]);
    assert_eq!((e.cursor_row, e.cursor_col, e.scroll_offset), (0, 0, 0));
    assert!(!e.modified);
    assert_eq!(e.filename, "notes.txt");
    assert_eq!((e.rows, e.cols), (25, 80));
}

#[test]
fn new_without_file_has_one_empty_line() {
    let e = Editor::new("new.txt", 25, 80, None);
    assert_eq!(lines(&e), vec![Vec::<u8>::new()]);
    assert_eq!(e.contents(), Vec::<u8>::new());
}

#[test]
fn new_on_empty_file_has_one_empty_line() {
    let e = open(b"");
    assert_eq!(lines(&e), vec![Vec::<u8>::new()]);
}

#[test]
fn contents_gives_file_back() {
    for text in [&b"ab\ncd\n"[..], b"", b"\n\n", b"one line", b"x\n\ny"] {
        assert_eq!(open(text).contents(), text.to_vec());
    }
}

#[test]
fn typing_inserts_at_cursor() {
    let mut e = open(b"ac");
    e.move_right();
    e.insert_char(b'b');
    assert_eq!(lines(&e), vec![b"abc".to_vec()]);
    assert_eq!(e.cursor_col, 2);
    assert!(e.modified);
}

#[test]
fn printable_keys_type_and_others_are_ignored() {
    let mut e = open(b"");
    type_str(&mut e, "Hi ~");
    assert_eq!(e.contents(), b"Hi ~".to_vec());
    // Non-ASCII, control characters, Delete and paging keys change nothing.
    for k in [Key::Unicode('é'), Key::Unicode('\t'), Key::Unicode('\x1b'), Key::Delete, Key::PageUp, Key::PageDown, Key::Other] {
        assert_eq!(e.handle_key(k), EditorAction::Continue);
    }
    assert_eq!(e.contents(), b"Hi ~".to_vec());
    assert_eq!(e.cursor_col, 4);
}

#[test]
fn command_classification() {
    assert_eq!(command_for(Key::Unicode('\x11')), Command::Quit);
    assert_eq!(command_for(Key::Unicode('\x13')), Command::Save);
    assert_eq!(command_for(Key::Unicode('\n')), Command::Newline);
    assert_eq!(command_for(Key::Unicode('\r')), Command::Newline);
    assert_eq!(command_for(Key::Unicode('\x08')), Command::Backspace);
    assert_eq!(command_for(Key::Unicode(' ')), Command::Insert(b' '));
    assert_eq!(command_for(Key::Unicode('\x7f')), Command::Insert(0x7f));
    assert_eq!(command_for(Key::Unicode('\x1f')), Command::Ignore);
    assert_eq!(command_for(Key::Unicode('\u{80}')), Command::Ignore);
    assert_eq!(command_for(Key::Home), Command::Home);
    assert_eq!(command_for(Key::End), Command::End);
    assert_eq!(command_for(Key::ArrowUp), Command::Up);
    assert_eq!(command_for(Key::Delete), Command::Ignore);
}

#[test]
fn quit_and_save_keys_leave_text_alone() {
    let mut e = open(b"abc");
    assert_eq!(e.handle_key(Key::Unicode('\x11')), EditorAction::Quit);
    assert_eq!(e.handle_key(Key::Unicode('\x13')), EditorAction::Save);
    assert_eq!(e.contents(), b"abc".to_vec());
    assert!(!e.modified);
}

#[test]
fn enter_breaks_line_at_cursor() {
    let mut e = open(b"abcd");
    e.move_right();
    e.move_right();
    assert_eq!(e.handle_key(Key::Unicode('\n')), EditorAction::Continue);
    assert_eq!(lines(&e), vec![b"ab".to_vec(), b"cd".to_vec()]);
    assert_eq!((e.cursor_row, e.cursor_col), (1, 0));
    assert!(e.modified);
}

#[test]
fn backspace_within_line() {
    let mut e = open(b"abc");
    e.handle_key(Key::End);
    e.backspace();
    assert_eq!(lines(&e), vec![b"ab".to_vec()]);
    assert_eq!(e.cursor_col, 2);
    assert!(e.modified);
}

#[test]
fn backspace_joins_with_previous_line() {
    let mut e = open(b"ab\ncd");
    e.move_down();
    e.backspace();
    assert_eq!(lines(&e), vec![b"abcd".to_vec()]);
    assert_eq!((e.cursor_row, e.cursor_col), (0, 2));
}

#[test]
fn backspace_at_start_of_file_does_nothing() {
    let mut e = open(b"ab");
    e.backspace();
    assert_eq!(lines(&e), vec![b"ab".to_vec()]);
    assert!(!e.modified);
}

#[test]
fn vertical_moves_clamp_column() {
    let mut e = open(b"long line\nab\nxyz");
    e.handle_key(Key::End);
    assert_eq!(e.cursor_col, 9);
    e.move_down();
    assert_eq!((e.cursor_row, e.cursor_col), (1, 2));
    e.move_down();
    assert_eq!((e.cursor_row, e.cursor_col), (2, 2));
    e.move_down();
    assert_eq!((e.cursor_row, e.cursor_col), (2, 2));
    e.move_up();
    e.move_up();
    assert_eq!((e.cursor_row, e.cursor_col), (0, 2));
    e.move_up();
    assert_eq!((e.cursor_row, e.cursor_col), (0, 2));
    assert!(!e.modified);
}

#[test]
fn horizontal_moves_wrap_between_lines() {
    let mut e = open(b"ab\ncd");
    e.move_left();
    assert_eq!((e.cursor_row, e.cursor_col), (0, 0));
    e.move_right();
    e.move_right();
    e.move_right();
    assert_eq!((e.cursor_row, e.cursor_col), (1, 0));
    e.move_left();
    assert_eq!((e.cursor_row, e.cursor_col), (0, 2));
    e.handle_key(Key::ArrowDown);
    e.handle_key(Key::End);
    e.move_right();
    assert_eq!((e.cursor_row, e.cursor_col), (1, 2));
    e.handle_key(Key::Home);
    assert_eq!(e.cursor_col, 0);
    e.handle_key(Key::ArrowRight);
    e.handle_key(Key::ArrowLeft);
    assert_eq!(e.cursor_col, 0);
    e.handle_key(Key::ArrowUp);
    assert_eq!(e.cursor_row, 0);
}

#[test]
fn newline_scrolls_when_cursor_reaches_status_bar() {
    let mut e = Editor::new("f", 3, 80, None);
    assert_eq!(e.editor_rows(), 2);
    assert_eq!(e.status_row(), 2);
    e.insert_newline();
    assert_eq!((e.cursor_row, e.scroll_offset), (1, 0));
    e.insert_newline();
    assert_eq!((e.cursor_row, e.scroll_offset), (2, 1));
    e.move_up();
    assert_eq!((e.cursor_row, e.scroll_offset), (1, 1));
    e.move_up();
    assert_eq!((e.cursor_row, e.scroll_offset), (0, 0));
    e.move_down();
    e.move_down();
    assert_eq!((e.cursor_row, e.scroll_offset), (2, 1));
}

#[test]
fn scroll_if_needed_only_at_status_bar() {
    let mut e = Editor::new("f", 3, 80, Some(&b"a\nb\nc"[..]));
    e.scroll_if_needed();
    assert_eq!(e.scroll_offset, 0);
    e.cursor_row = 2;
    e.scroll_if_needed();
    assert_eq!(e.scroll_offset, 1);
}

#[test]
fn key_safety_reports_underflow_cases() {
    let mut e = Editor::new("f", 3, 80, Some(&b"\n\n\n"[..]));
    assert!(e.key_is_safe(Key::Unicode('\n')));
    e.scroll_offset = 3;
    assert!(!e.key_is_safe(Key::Unicode('\n')));
    assert!(!e.key_is_safe(Key::ArrowDown));
    assert!(e.key_is_safe(Key::ArrowUp));
    let e0 = Editor::new("f", 0, 80, None);
    assert!(!e0.key_is_safe(Key::Unicode('\r')));
    assert!(e0.key_is_safe(Key::ArrowDown));
}

#[test]
fn save_outcome_updates_modified() {
    let mut e = open(b"");
    type_str(&mut e, "x");
    e.save(false);
    assert!(e.modified);
    e.save(true);
    assert!(!e.modified);
    assert_eq!(e.contents(), b"x".to_vec());
}

#[test]
fn status_line_text() {
    let mut e = open(b"abc\ndef");
    assert_eq!(String::from_utf8(e.draw_status()).unwrap(), " notes.txt   Ln 1 Col 1 | ^S Save  ^Q Quit");
    e.move_down();
    e.handle_key(Key::End);
    e.insert_char(b'!');
    assert_eq!(
        String::from_utf8(e.draw_status()).unwrap(),
        " notes.txt  [modified]  Ln 2 Col 5 | ^S Save  ^Q Quit"
    );
}

#[test]
fn status_line_with_non_ascii_name_and_large_numbers() {
    let mut e = Editor::new("ñ.txt", 25, 80, None);
    e.cursor_row = 9;
    e.cursor_col = 119;
    assert_eq!(String::from_utf8(e.draw_status()).unwrap(), " ñ.txt   Ln 10 Col 120 | ^S Save  ^Q Quit");
}

#[test]
fn draw_shows_lines_tildes_and_cursor() {
    let mut e = Editor::new("f", 4, 3, Some(&b"abcdef\nxy"[..]));
    e.move_down();
    e.move_right();
    let f = e.draw();
    assert_eq!(f.rows.len(), 3);
    match &f.rows[0] {
        RowImage::Text(v) => assert_eq!(v, &b"abc".to_vec()),
        RowImage::Tilde => panic!("expected text"),
    }
    match &f.rows[1] {
        RowImage::Text(v) => assert_eq!(v, &b"xy".to_vec()),
        RowImage::Tilde => panic!("expected text"),
    }
    assert!(matches!(f.rows[2], RowImage::Tilde));
    assert_eq!(f.status_row, 3);
    assert_eq!((f.cursor_row, f.cursor_col), (1, 1));
    assert_eq!(f.status, e.draw_status());
}

#[test]
fn draw_follows_scroll_offset() {
    let mut e = Editor::new("f", 2, 80, Some(&b"a\nb\nc"[..]));
    e.move_down();
    assert_eq!(e.scroll_offset, 1);
    let f = e.draw();
    assert_eq!(f.rows.len(), 1);
    match &f.rows[0] {
        RowImage::Text(v) => assert_eq!(v, &b"b".to_vec()),
        RowImage::Tilde => panic!("expected text"),
    }
    assert_eq!((f.cursor_row, f.cursor_col), (0, 0));
}

#[test]
fn current_line_len_follows_cursor() {
    let mut e = open(b"abc\nde");
    assert_eq!(e.current_line_len(), 3);
    e.move_down();
    assert_eq!(e.current_line_len(), 2);
}

#[test]
fn draw_three_row_example_with_colours() {
    let e = Editor {
        lines: vec![b"hi".to_vec()],
        cursor_row: 0,
        cursor_col: 1,
        scroll_offset: 0,
        filename: String::from("a"),
        modified: false,
        rows: 3,
        cols: 1,
    };
    let f = e.draw();
    assert_eq!(f.rows.len(), 2);
    match &f.rows[0] {
        RowImage::Text(v) => assert_eq!(v, &b"h".to_vec()),
        RowImage::Tilde => panic!("expected text"),
    }
    assert!(matches!(f.rows[1], RowImage::Tilde));
    assert_eq!(f.text_color, 0x0F);
    assert_eq!(f.tilde, b'~');
    assert_eq!(f.tilde_color, 0x08);
    assert_eq!(f.status_color, 0x70);
    assert_eq!(f.status_row, 2);
    assert_eq!(String::from_utf8(f.status).unwrap(), " a   Ln 1 Col 2 | ^S Save  ^Q Quit");
    assert_eq!((f.cursor_row, f.cursor_col), (0, 1));
}
