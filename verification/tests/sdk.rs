use korrodium::abi::{arg_spans, filled_len, host_count, line_len};
use korrodium::keys::{decode_key, Key};
use korrodium::screen::{color, decode_cell, Color};
use korrodium::smoke::report;
use korrodium::time::DateTime;

#[test]
fn decode_named_keys() {
    let expected = [
        Key::ArrowUp,
        Key::ArrowDown,
        Key::ArrowLeft,
        Key::ArrowRight,
        Key::Home,
        Key::End,
        Key::Delete,
        Key::PageUp,
        Key::PageDown,
    ];
    for (i, k) in expected.iter().enumerate() {
        assert_eq!(decode_key(-(i as i32) - 1), *k);
    }
}

#[test]
fn decode_unicode_and_unknown_keys() {
    assert_eq!(decode_key(0), Key::Other);
    assert_eq!(decode_key(65), Key::Unicode('A'));
    assert_eq!(decode_key(10), Key::Unicode('\n'));
    assert_eq!(decode_key(0x1F600), Key::Unicode('😀'));
    assert_eq!(decode_key(0xD7FF), Key::Unicode('\u{D7FF}'));
    assert_eq!(decode_key(0xD800), Key::Other);
    assert_eq!(decode_key(0xDFFF), Key::Other);
    assert_eq!(decode_key(0xE000), Key::Unicode('\u{E000}'));
    assert_eq!(decode_key(0x10FFFF), Key::Unicode('\u{10FFFF}'));
    assert_eq!(decode_key(0x110000), Key::Other);
    assert_eq!(decode_key(-10), Key::Other);
    assert_eq!(decode_key(i32::MIN), Key::Other);
}

#[test]
fn color_packs_background_high() {
    assert_eq!(color(Color::White, Color::Black), 0x0F);
    assert_eq!(color(Color::Black, Color::LightGray), 0x70);
    assert_eq!(color(Color::DarkGray, Color::Black), 0x08);
    assert_eq!(color(Color::Yellow, Color::Blue), 0x1E);
    assert_eq!(Color::Pink.value(), 13);
}

#[test]
fn color_unpacks_to_its_pair() {
    let all = [
        Color::Black, Color::Blue, Color::Green, Color::Cyan, Color::Red, Color::Magenta,
        Color::Brown, Color::LightGray, Color::DarkGray, Color::LightBlue, Color::LightGreen,
        Color::LightCyan, Color::LightRed, Color::Pink, Color::Yellow, Color::White,
    ];
    for (i, fg) in all.iter().enumerate() {
        assert_eq!(fg.value() as usize, i);
        for (j, bg) in all.iter().enumerate() {
            let c = color(*fg, *bg);
            assert_eq!((c >> 4) as usize, j);
            assert_eq!((c & 0xF) as usize, i);
        }
    }
}

#[test]
fn decode_screen_cells() {
    assert_eq!(decode_cell(-1), None);
    assert_eq!(decode_cell(0x0758), Some((0x58, 0x07)));
    assert_eq!(decode_cell(0x12345), Some((0x45, 0x23)));
    assert_eq!(decode_cell(0), Some((0, 0)));
}

#[test]
fn decode_time_record() {
    let rec = [0xE9, 0x07, 3, 14, 15, 9, 26, 0];
    assert_eq!(
        DateTime::from_record(&rec, 8),
        Some(DateTime { year: 2025, month: 3, day: 14, hour: 15, minute: 9, second: 26 })
    );
    assert_eq!(DateTime::from_record(&rec, 7), None);
    assert_eq!(DateTime::from_record(&rec, -1), None);
    assert_eq!(DateTime::default(), DateTime { year: 0, month: 0, day: 0, hour: 0, minute: 0, second: 0 });
}

#[test]
fn host_counts() {
    assert_eq!(host_count(-3), 0);
    assert_eq!(host_count(0), 0);
    assert_eq!(host_count(42), 42);
    assert_eq!(filled_len(-1, 8), None);
    assert_eq!(filled_len(0, 8), Some(0));
    assert_eq!(filled_len(8, 8), Some(8));
}

#[test]
fn argument_spans() {
    let buf = b"a.txt\n\nsecond\nignored";
    assert_eq!(arg_spans(buf, 14), vec![(0, 5), (7, 13)]);
    assert_eq!(arg_spans(buf, 21), vec![(0, 5), (7, 13), (14, 21)]);
    assert_eq!(arg_spans(buf, 0), Vec::<(usize, usize)>::new());
    assert_eq!(arg_spans(buf, -1), Vec::<(usize, usize)>::new());
    assert_eq!(arg_spans(b"\n\n", 2), Vec::<(usize, usize)>::new());
    assert_eq!(arg_spans("é\nx".as_bytes(), 4), vec![(0, 2), (3, 4)]);
}

#[test]
fn argument_spans_need_utf8() {
    let buf = [b'a', 0xFF, b'\n', b'b'];
    assert_eq!(arg_spans(&buf, 4), Vec::<(usize, usize)>::new());
    assert_eq!(arg_spans(&buf, 1), vec![(0, 1)]);
}

#[test]
fn smoke_report_counts_failures() {
    let mut fails = 0u32;
    assert_eq!(report(&mut fails, true), " PASS\n");
    assert_eq!(fails, 0);
    assert_eq!(report(&mut fails, false), " FAIL\n");
    assert_eq!(report(&mut fails, false), " FAIL\n");
    assert_eq!(fails, 2);
}

#[test]
fn line_lengths_need_utf8() {
    assert_eq!(line_len(b"hello", 5), Some(5));
    assert_eq!(line_len(b"hello", 3), Some(3));
    assert_eq!(line_len(b"hello", -1), None);
    assert_eq!(line_len("é!".as_bytes(), 3), Some(3));
    assert_eq!(line_len("é!".as_bytes(), 1), None);
    assert_eq!(line_len(&[b'o', b'k', 0xFF], 3), None);
    assert_eq!(line_len(&[b'o', b'k', 0xFF], 2), Some(2));
}
