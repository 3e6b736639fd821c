//! Laws of the editor: what its operations do to the file's text as a
//! whole, what they keep, and what undoes what.
use vstd::prelude::*;
use crate::editor::{spec_command, spec_action, Command, EditorAction, EditorState};
use crate::keys::Key;
use crate::text::{
    split, join, lead, trail, no_newline, all_no_newline, NEWLINE, lemma_join_at,
    lemma_join_sandwich, lemma_join_push, lemma_join_split, lemma_split_join,
};

verus! {

/// The lead of one more line: the old lead, the line, a newline.
proof fn lemma_lead_push(a: Seq<Seq<u8>>, x: Seq<u8>)
    ensures
        lead(a.push(x)) == lead(a) + x + seq![NEWLINE],
{
    lemma_join_push(a, x);
}

/// Lines before line `r` have a non-empty lead exactly when there are any.
proof fn lemma_lead_empty(ls: Seq<Seq<u8>>, r: int)
    requires
        0 <= r <= ls.len(),
    ensures
        (lead(ls.take(r)).len() == 0) <==> r == 0,
{
    if r > 0 {
        assert(lead(ls.take(r)).len() >= 1);
    }
}

/// Saving an editor freshly opened on a file writes the file's bytes back
/// unchanged; a new file saves as empty.
pub proof fn open_then_save_gives_file_back(d: Seq<u8>)
    ensures
        join(split(d)) == d,
        join(seq![Seq::<u8>::empty()]) == Seq::<u8>::empty(),
{
    lemma_join_split(d);
}

/// Opening what an editor saves gives back its lines, as long as no line
/// holds a newline (which the keys never insert).
pub proof fn save_then_open_gives_lines_back(s: EditorState)
    requires
        s.wf(),
        all_no_newline(s.lines),
    ensures
        split(s.text()) == s.lines,
{
    lemma_split_join(s.lines);
}

/// The cursor lies within the text.
pub proof fn offset_within_text(s: EditorState)
    requires
        s.wf(),
    ensures
        0 <= s.offset() <= s.text().len(),
{
    lemma_join_at(s.lines, s.row);
}

/// Typing a byte inserts it into the text at the cursor, which moves past it.
pub proof fn insert_char_inserts_into_text(s: EditorState, b: u8)
    requires
        s.wf(),
    ensures
        s.insert_char(b).text() == s.text().insert(s.offset(), b),
        s.insert_char(b).offset() == s.offset() + 1,
{
    let ls = s.lines;
    let r = s.row;
    let t = s.insert_char(b);
    lemma_join_at(ls, r);
    lemma_join_at(t.lines, r);
    assert(t.lines.take(r) =~= ls.take(r));
    assert(t.lines.skip(r + 1) =~= ls.skip(r + 1));
    assert(t.text() =~= s.text().insert(s.offset(), b));
}

/// Enter inserts a newline into the text at the cursor, which moves past it.
pub proof fn insert_newline_inserts_into_text(s: EditorState)
    requires
        s.wf(),
    ensures
        s.insert_newline().text() == s.text().insert(s.offset(), NEWLINE),
        s.insert_newline().offset() == s.offset() + 1,
{
    let ls = s.lines;
    let r = s.row;
    let c = s.col;
    let l = ls[r];
    let t = s.insert_newline();
    lemma_join_at(ls, r);
    let m = seq![l.take(c), l.skip(c)];
    assert(t.lines =~= ls.take(r) + m + ls.skip(r + 1));
    lemma_join_sandwich(ls.take(r), m, ls.skip(r + 1));
    assert(m.drop_last() =~= seq![l.take(c)]);
    assert(join(seq![l.take(c)]) == l.take(c));
    assert(m.last() == l.skip(c));
    assert(join(m) == l.take(c) + seq![NEWLINE] + l.skip(c));
    assert(t.text() =~= s.text().insert(s.offset(), NEWLINE));
    assert(t.lines.take(r + 1) =~= ls.take(r).push(l.take(c)));
    lemma_lead_push(ls.take(r), l.take(c));
}

proof fn lemma_backspace_within_line(s: EditorState)
    requires
        s.wf(),
        s.col > 0,
    ensures
        s.backspace().text() == s.text().remove(s.offset() - 1),
        s.backspace().offset() == s.offset() - 1,
{
    let ls = s.lines;
    let r = s.row;
    let t = s.backspace();
    lemma_join_at(ls, r);
    lemma_join_at(t.lines, r);
    assert(t.lines.take(r) =~= ls.take(r));
    assert(t.lines.skip(r + 1) =~= ls.skip(r + 1));
    assert(t.text() =~= s.text().remove(s.offset() - 1));
}

proof fn lemma_backspace_joins_lines(s: EditorState)
    requires
        s.wf(),
        s.col == 0,
        s.row > 0,
    ensures
        s.backspace().text() == s.text().remove(s.offset() - 1),
        s.backspace().offset() == s.offset() - 1,
{
    let ls = s.lines;
    let r = s.row;
    let t = s.backspace();
    let p = ls[r - 1];
    let l = ls[r];
    let a = ls.take(r - 1);
    let b = ls.skip(r + 1);
    assert(ls =~= a + seq![p, l] + b);
    assert(t.lines =~= a + seq![p + l] + b);
    lemma_join_sandwich(a, seq![p, l], b);
    lemma_join_sandwich(a, seq![p + l], b);
    assert(seq![p, l].drop_last() =~= seq![p]);
    assert(join(seq![p]) == p);
    assert(join(seq![p + l]) == p + l);
    assert(join(seq![p, l]) == p + seq![NEWLINE] + l);
    assert(ls.take(r) =~= a.push(p));
    lemma_lead_push(a, p);
    assert(t.lines.take(r - 1) =~= a);
    let pre = lead(a);
    let post = trail(b);
    assert(s.text() == pre + (p + seq![NEWLINE] + l) + post);
    assert(t.text() == pre + (p + l) + post);
    assert(s.offset() == pre.len() + p.len() + 1);
    assert(t.text() =~= s.text().remove(s.offset() - 1));
}

/// Backspace deletes the byte before the cursor from the text, and the
/// cursor moves back over it; at the start of the text it changes nothing.
pub proof fn backspace_deletes_from_text(s: EditorState)
    requires
        s.wf(),
    ensures
        s.offset() > 0 ==> s.backspace().text() == s.text().remove(s.offset() - 1)
            && s.backspace().offset() == s.offset() - 1,
        s.offset() == 0 ==> s.backspace() == s,
{
    lemma_lead_empty(s.lines, s.row);
    if s.col > 0 {
        lemma_backspace_within_line(s);
    } else if s.row > 0 {
        lemma_backspace_joins_lines(s);
    }
}

/// Left moves the cursor one byte back in the text, unless it is at the
/// start; the text is unchanged.
pub proof fn move_left_steps_back(s: EditorState)
    requires
        s.wf(),
    ensures
        s.move_left().lines == s.lines,
        s.move_left().modified == s.modified,
        s.offset() > 0 ==> s.move_left().offset() == s.offset() - 1,
        s.offset() == 0 ==> s.move_left() == s,
{
    let ls = s.lines;
    let r = s.row;
    lemma_lead_empty(ls, r);
    if s.col == 0 && r > 0 {
        assert(ls.take(r) =~= ls.take(r - 1).push(ls[r - 1]));
        lemma_lead_push(ls.take(r - 1), ls[r - 1]);
    }
}

/// Right moves the cursor one byte on in the text, unless it is at the
/// end; the text is unchanged.
pub proof fn move_right_steps_on(s: EditorState)
    requires
        s.wf(),
    ensures
        s.move_right().lines == s.lines,
        s.move_right().modified == s.modified,
        s.offset() < s.text().len() ==> s.move_right().offset() == s.offset() + 1,
        s.offset() == s.text().len() ==> s.move_right() == s,
{
    let ls = s.lines;
    let r = s.row;
    lemma_join_at(ls, r);
    if s.col == s.line_len() && r + 1 < ls.len() {
        assert(ls.take(r + 1) =~= ls.take(r).push(ls[r]));
        lemma_lead_push(ls.take(r), ls[r]);
    }
}

/// Up, Down, Home and End move the cursor only: the lines and the modified
/// flag stay as they were.
pub proof fn vertical_moves_keep_text(s: EditorState)
    requires
        s.wf(),
    ensures
        s.move_up().lines == s.lines && s.move_up().modified == s.modified,
        s.move_down().lines == s.lines && s.move_down().modified == s.modified,
        s.home().lines == s.lines && s.home().modified == s.modified,
        s.end().lines == s.lines && s.end().modified == s.modified,
{
}

/// Backspace right after typing a byte gives back the lines and the cursor.
pub proof fn backspace_undoes_insert_char(s: EditorState, b: u8)
    requires
        s.wf(),
    ensures
        s.insert_char(b).backspace().lines == s.lines,
        s.insert_char(b).backspace().row == s.row,
        s.insert_char(b).backspace().col == s.col,
{
    let t = s.insert_char(b);
    assert(t.lines[s.row].remove(s.col) =~= s.lines[s.row]);
    assert(t.backspace().lines =~= s.lines);
}

/// Backspace right after Enter gives back the lines and the cursor.
pub proof fn backspace_undoes_newline(s: EditorState)
    requires
        s.wf(),
    ensures
        s.insert_newline().backspace().lines == s.lines,
        s.insert_newline().backspace().row == s.row,
        s.insert_newline().backspace().col == s.col,
{
    let ls = s.lines;
    let r = s.row;
    let c = s.col;
    let l = ls[r];
    let t = s.insert_newline();
    assert(t.lines[r] == l.take(c));
    assert(t.lines[r + 1] == l.skip(c));
    assert(l.take(c) + l.skip(c) =~= l);
    assert(t.backspace().lines =~= ls);
}

/// Every key keeps the cursor within the text.
pub proof fn handle_key_keeps_cursor_in_text(s: EditorState, key: Key)
    requires
        s.wf(),
        s.key_safe(key),
    ensures
        s.handle_key(key).wf(),
{
    match spec_command(key) {
        Command::Backspace => {
            if s.col == 0 && s.row > 0 {
                let t = s.backspace();
                assert(t.lines[t.row] == s.lines[s.row - 1] + s.lines[s.row]);
            }
        },
        _ => {},
    }
}

/// No key puts a newline inside a line: the lines stay newline-free.
pub proof fn handle_key_keeps_lines_newline_free(s: EditorState, key: Key)
    requires
        s.wf(),
        all_no_newline(s.lines),
    ensures
        all_no_newline(s.handle_key(key).lines),
{
    let t = s.handle_key(key);
    let ls = s.lines;
    let r = s.row;
    let c = s.col;
    assert(no_newline(ls[r]));
    match spec_command(key) {
        Command::Insert(b) => {
            assert(b != NEWLINE);
            assert forall|i: int| 0 <= i < t.lines.len() implies no_newline(#[trigger] t.lines[i]) by {
                if i != r {
                    assert(no_newline(ls[i]));
                }
            }
        },
        Command::Newline => {
            assert forall|i: int| 0 <= i < t.lines.len() implies no_newline(#[trigger] t.lines[i]) by {
                if i < r {
                    assert(no_newline(ls[i]));
                } else if i > r + 1 {
                    assert(t.lines[i] == ls[i - 1]);
                    assert(no_newline(ls[i - 1]));
                }
            }
        },
        Command::Backspace => {
            if c > 0 {
                assert forall|i: int| 0 <= i < t.lines.len() implies no_newline(#[trigger] t.lines[i]) by {
                    if i != r {
                        assert(no_newline(ls[i]));
                    }
                }
            } else if r > 0 {
                assert(no_newline(ls[r - 1]));
                assert forall|i: int| 0 <= i < t.lines.len() implies no_newline(#[trigger] t.lines[i]) by {
                    if i < r - 1 {
                        assert(no_newline(ls[i]));
                    } else if i >= r {
                        assert(t.lines[i] == ls[i + 1]);
                        assert(no_newline(ls[i + 1]));
                    }
                }
            }
        },
        _ => {},
    }
}

/// Keys that edit mark the file modified, keys that move leave the flag as
/// it was, and a save that was written clears it.
pub proof fn modified_tracks_edits(s: EditorState, key: Key)
    requires
        s.wf(),
    ensures
        spec_command(key) matches Command::Insert(_) ==> s.handle_key(key).modified,
        spec_command(key) == Command::Newline ==> s.handle_key(key).modified,
        spec_command(key) == Command::Backspace && s.offset() > 0 ==> s.handle_key(key).modified,
        (spec_command(key) is Up || spec_command(key) is Down || spec_command(key) is Left
            || spec_command(key) is Right || spec_command(key) is Home || spec_command(key) is End
            || spec_command(key) is Ignore || spec_command(key) is Quit || spec_command(key) is Save)
            ==> s.handle_key(key).modified == s.modified,
        !s.saved(true).modified,
        s.saved(false) == s,
{
    lemma_lead_empty(s.lines, s.row);
}

/// Right arrow moves the cursor one byte on in the text (staying put at its
/// end), Left arrow one byte back (staying put at its start); neither
/// changes the text, the modified flag or the scroll offset.
pub proof fn arrow_keys_step_through_text(s: EditorState)
    requires
        s.wf(),
    ensures
        s.handle_key(Key::ArrowRight).lines == s.lines,
        s.handle_key(Key::ArrowRight).modified == s.modified,
        s.handle_key(Key::ArrowRight).scroll == s.scroll,
        s.handle_key(Key::ArrowRight).offset() == (if s.offset() < s.text().len() {
            s.offset() + 1
        } else {
            s.offset()
        }),
        s.handle_key(Key::ArrowLeft).lines == s.lines,
        s.handle_key(Key::ArrowLeft).modified == s.modified,
        s.handle_key(Key::ArrowLeft).scroll == s.scroll,
        s.handle_key(Key::ArrowLeft).offset() == (if s.offset() > 0 {
            s.offset() - 1
        } else {
            s.offset()
        }),
        spec_action(Key::ArrowRight) == EditorAction::Continue,
        spec_action(Key::ArrowLeft) == EditorAction::Continue,
{
    assert(spec_command(Key::ArrowRight) == Command::Right);
    assert(spec_command(Key::ArrowLeft) == Command::Left);
    move_right_steps_on(s);
    move_left_steps_back(s);
    offset_within_text(s);
}

/// Up arrow moves the cursor to the previous line (if any), to the same
/// column or the line's end if that is shorter, scrolling back one row when
/// it leaves the top of the screen; Down arrow does the same with the next
/// line, scrolling on one row when the cursor reaches the status bar. Home
/// and End move to the start and the end of the cursor's line. None of them
/// changes the text or the modified flag.
pub proof fn up_down_home_end_move_the_cursor(s: EditorState)
    requires
        s.wf(),
    ensures
        ({
            let t = s.handle_key(Key::ArrowUp);
            &&& t.lines == s.lines && t.modified == s.modified && t.rows == s.rows
            &&& s.row > 0 ==> {
                &&& t.row == s.row - 1
                &&& t.col == (if s.col <= s.lines[s.row - 1].len() {
                    s.col
                } else {
                    s.lines[s.row - 1].len() as int
                })
                &&& t.scroll == (if s.row - 1 < s.scroll {
                    s.scroll - 1
                } else {
                    s.scroll
                })
            }
            &&& s.row == 0 ==> t == s
        }),
        ({
            let t = s.handle_key(Key::ArrowDown);
            &&& t.lines == s.lines && t.modified == s.modified && t.rows == s.rows
            &&& s.row + 1 < s.lines.len() ==> {
                &&& t.row == s.row + 1
                &&& t.col == (if s.col <= s.lines[s.row + 1].len() {
                    s.col
                } else {
                    s.lines[s.row + 1].len() as int
                })
                &&& t.scroll == (if s.row + 1 - s.scroll >= s.rows - 1 {
                    s.scroll + 1
                } else {
                    s.scroll
                })
            }
            &&& s.row + 1 >= s.lines.len() ==> t == s
        }),
        ({
            let t = s.handle_key(Key::Home);
            &&& t.lines == s.lines && t.modified == s.modified && t.row == s.row && t.col == 0
                && t.scroll == s.scroll && t.rows == s.rows
        }),
        ({
            let t = s.handle_key(Key::End);
            &&& t.lines == s.lines && t.modified == s.modified && t.row == s.row
            &&& t.col == s.lines[s.row].len() && t.scroll == s.scroll && t.rows == s.rows
        }),
        spec_action(Key::ArrowUp) == EditorAction::Continue,
        spec_action(Key::ArrowDown) == EditorAction::Continue,
        spec_action(Key::Home) == EditorAction::Continue,
        spec_action(Key::End) == EditorAction::Continue,
{
    assert(spec_command(Key::ArrowUp) == Command::Up);
    assert(spec_command(Key::ArrowDown) == Command::Down);
    assert(spec_command(Key::Home) == Command::Home);
    assert(spec_command(Key::End) == Command::End);
}

/// A printable ASCII character (0x20 to 0x7F) is inserted into the text at
/// the cursor, which moves past it, and marks the file modified.
pub proof fn typing_inserts_the_character(s: EditorState, c: char)
    requires
        s.wf(),
        0x20 <= (c as u32) && (c as u32) < 0x80,
    ensures
        s.handle_key(Key::Unicode(c)).text() == s.text().insert(s.offset(), (c as u32) as u8),
        s.handle_key(Key::Unicode(c)).offset() == s.offset() + 1,
        s.handle_key(Key::Unicode(c)).modified,
        s.handle_key(Key::Unicode(c)).scroll == s.scroll,
        spec_action(Key::Unicode(c)) == EditorAction::Continue,
{
    assert(c != '\x11' && c != '\x13' && c != '\n' && c != '\r' && c != '\x08');
    assert(spec_command(Key::Unicode(c)) == Command::Insert((c as u32) as u8));
    insert_char_inserts_into_text(s, (c as u32) as u8);
}

/// Enter (`'\n'` or `'\r'`) inserts a newline into the text at the cursor,
/// which moves past it, and marks the file modified.
pub proof fn enter_inserts_a_newline(s: EditorState, c: char)
    requires
        s.wf(),
        c == '\n' || c == '\r',
    ensures
        s.handle_key(Key::Unicode(c)).text() == s.text().insert(s.offset(), 10u8),
        s.handle_key(Key::Unicode(c)).offset() == s.offset() + 1,
        s.handle_key(Key::Unicode(c)).modified,
        spec_action(Key::Unicode(c)) == EditorAction::Continue,
        s.handle_key(Key::Unicode(c)).row == s.row + 1,
        s.handle_key(Key::Unicode(c)).col == 0,
        s.handle_key(Key::Unicode(c)).scroll == (if s.row + 1 - s.scroll >= s.rows - 1 {
            s.scroll + 1
        } else {
            s.scroll
        }),
{
    assert(spec_command(Key::Unicode(c)) == Command::Newline);
    insert_newline_inserts_into_text(s);
}

/// Backspace (`0x08`) deletes the byte before the cursor from the text and
/// moves the cursor back over it, marking the file modified; at the start
/// of the text it changes nothing.
pub proof fn backspace_key_deletes(s: EditorState)
    requires
        s.wf(),
    ensures
        s.offset() > 0 ==> {
            let t = s.handle_key(Key::Unicode('\x08'));
            &&& t.text() == s.text().remove(s.offset() - 1)
            &&& t.offset() == s.offset() - 1
            &&& t.modified
            &&& t.scroll == s.scroll
        },
        s.offset() == 0 ==> s.handle_key(Key::Unicode('\x08')) == s,
        spec_action(Key::Unicode('\x08')) == EditorAction::Continue,
{
    assert(spec_command(Key::Unicode('\x08')) == Command::Backspace);
    backspace_deletes_from_text(s);
    lemma_lead_empty(s.lines, s.row);
}

/// Ctrl+Q asks to quit and Ctrl+S to save, and neither changes the editor;
/// every other key asks to go on.
pub proof fn quit_and_save_keys(s: EditorState, key: Key)
    ensures
        s.handle_key(Key::Unicode('\x11')) == s,
        s.handle_key(Key::Unicode('\x13')) == s,
        (spec_action(key) == EditorAction::Quit) <==> key == Key::Unicode('\x11'),
        (spec_action(key) == EditorAction::Save) <==> key == Key::Unicode('\x13'),
{
    assert(spec_command(Key::Unicode('\x11')) == Command::Quit);
    assert(spec_command(Key::Unicode('\x13')) == Command::Save);
}

/// Keys without a command change nothing: other control characters,
/// characters beyond ASCII, Delete, Page Up, Page Down and unknown keys.
pub proof fn other_keys_change_nothing(s: EditorState, key: Key)
    requires
        match key {
            Key::Unicode(c) => (c as u32) >= 0x80 || ((c as u32) < 0x20 && c != '\n' && c != '\r'
                && c != '\x08' && c != '\x11' && c != '\x13'),
            Key::Delete | Key::PageUp | Key::PageDown | Key::Other => true,
            _ => false,
        },
    ensures
        s.handle_key(key) == s,
        spec_action(key) == EditorAction::Continue,
{
}

/// Screen row `i` shows file row `i + scroll` whenever that row exists,
/// however short it is (an empty line shows as an empty text row): its
/// first `min(len, cols)` bytes, byte for byte. Only rows past the end of
/// the file show the tilde.
pub proof fn screen_rows_show_file_rows(s: EditorState, cols: int, i: int)
    requires
        s.wf(),
        cols >= 0,
        i >= 0,
    ensures
        i + s.scroll < s.lines.len() ==> {
            let l = s.lines[i + s.scroll];
            &&& s.row_image(cols, i) is Some
            &&& s.row_image(cols, i).unwrap().len() == (if l.len() < cols {
                l.len() as int
            } else {
                cols
            })
            &&& forall|j: int|
                0 <= j < s.row_image(cols, i).unwrap().len() ==> #[trigger] s.row_image(
                    cols,
                    i,
                ).unwrap()[j] == l[j]
        },
        i + s.scroll >= s.lines.len() ==> s.row_image(cols, i) is None,
{
}

} // verus!
