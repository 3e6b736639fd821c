//! A line editor: the file as lines of bytes, a cursor, a scroll offset and
//! a modified flag. Every operation is specified as a transition of
//! `EditorState`, the editor's mathematical model.
use vstd::prelude::*;
use crate::keys::Key;
use crate::screen::{color, spec_color, Color};
use crate::text::{
    seqs, split, join, lead, ascii, decimal, split_lines, join_lines, append_bytes, push_ascii,
    push_decimal, lemma_split_nonempty,
};
use vstd::utf8::encode_utf8;

verus! {

/// The model of an editor: its lines, the cursor (`row`, `col`), the first
/// file row on screen (`scroll`), whether it holds unsaved edits, and the
/// number of screen rows, the last of which is the status bar.
pub struct EditorState {
    pub lines: Seq<Seq<u8>>,
    pub row: int,
    pub col: int,
    pub scroll: int,
    pub modified: bool,
    pub rows: int,
}

/// What a key asks of the editor.
#[derive(Debug, Clone, Copy, PartialEq, Eq, Structural)]
pub enum Command {
    Quit,
    Save,
    Newline,
    Backspace,
    Insert(u8),
    Up,
    Down,
    Left,
    Right,
    Home,
    End,
    Ignore,
}

/// What the caller is to do after a key was handled.
#[derive(Debug, Clone, Copy, PartialEq, Eq, Structural)]
pub enum EditorAction {
    /// Stop editing.
    Quit,
    /// Write `contents()` to the file, then report the outcome to `save`.
    Save,
    /// Redraw and wait for the next key.
    Continue,
}

/// The command of a key: Ctrl+Q quits, Ctrl+S saves, Enter (`'\n'` or
/// `'\r'`) breaks the line, Backspace (`0x08`) deletes, a printable ASCII
/// character (0x20 to 0x7F) is inserted, arrows, Home and End move the
/// cursor; every other key is ignored.
pub open spec fn spec_command(key: Key) -> Command {
    match key {
        Key::Unicode(c) => {
            if c == '\x11' {
                Command::Quit
            } else if c == '\x13' {
                Command::Save
            } else if c == '\n' || c == '\r' {
                Command::Newline
            } else if c == '\x08' {
                Command::Backspace
            } else if 0x20 <= (c as u32) && (c as u32) < 0x80 {
                Command::Insert((c as u32) as u8)
            } else {
                Command::Ignore
            }
        },
        Key::ArrowUp => Command::Up,
        Key::ArrowDown => Command::Down,
        Key::ArrowLeft => Command::Left,
        Key::ArrowRight => Command::Right,
        Key::Home => Command::Home,
        Key::End => Command::End,
        _ => Command::Ignore,
    }
}

/// What the caller does after a key: quit on Quit, save on Save, else go on.
pub open spec fn spec_action(key: Key) -> EditorAction {
    match spec_command(key) {
        Command::Quit => EditorAction::Quit,
        Command::Save => EditorAction::Save,
        _ => EditorAction::Continue,
    }
}

/// Classifies a key.
pub fn command_for(key: Key) -> (c: Command)
    ensures
        c == spec_command(key),
{
    match key {
        Key::Unicode(c) => {
            if c == '\x11' {
                Command::Quit
            } else if c == '\x13' {
                Command::Save
            } else if c == '\n' || c == '\r' {
                Command::Newline
            } else if c == '\x08' {
                Command::Backspace
            } else {
                let v = c as u32;
                if 0x20 <= v && v < 0x80 {
                    Command::Insert(v as u8)
                } else {
                    Command::Ignore
                }
            }
        },
        Key::ArrowUp => Command::Up,
        Key::ArrowDown => Command::Down,
        Key::ArrowLeft => Command::Left,
        Key::ArrowRight => Command::Right,
        Key::Home => Command::Home,
        Key::End => Command::End,
        _ => Command::Ignore,
    }
}

impl EditorState {
    /// The cursor stands on a line and within it (or just past its end),
    /// and there is at least one line.
    pub open spec fn wf(self) -> bool {
        &&& self.lines.len() >= 1
        &&& 0 <= self.row < self.lines.len()
        &&& 0 <= self.col <= self.lines[self.row].len()
        &&& 0 <= self.scroll
        &&& 0 <= self.rows
    }

    /// The length of the cursor's line.
    pub open spec fn line_len(self) -> int {
        self.lines[self.row].len() as int
    }

    /// The file's text: the lines joined with newlines.
    pub open spec fn text(self) -> Seq<u8> {
        join(self.lines)
    }

    /// The cursor's position in the text.
    pub open spec fn offset(self) -> int {
        lead(self.lines.take(self.row)).len() + self.col
    }

    /// One more row scrolled when the cursor has reached the status bar.
    pub open spec fn scrolled(self) -> EditorState {
        if self.row - self.scroll >= self.rows - 1 {
            EditorState { scroll: self.scroll + 1, ..self }
        } else {
            self
        }
    }

    /// `byte` inserted before the cursor, which moves past it.
    pub open spec fn insert_char(self, byte: u8) -> EditorState {
        EditorState {
            lines: self.lines.update(self.row, self.lines[self.row].insert(self.col, byte)),
            col: self.col + 1,
            modified: true,
            ..self
        }
    }

    /// The byte before the cursor deleted; at the start of a line, the line
    /// joined to the previous one; at the start of the file, nothing.
    pub open spec fn backspace(self) -> EditorState {
        if self.col > 0 {
            EditorState {
                lines: self.lines.update(self.row, self.lines[self.row].remove(self.col - 1)),
                col: self.col - 1,
                modified: true,
                ..self
            }
        } else if self.row > 0 {
            EditorState {
                lines: self.lines.update(
                    self.row - 1,
                    self.lines[self.row - 1] + self.lines[self.row],
                ).remove(self.row),
                row: self.row - 1,
                col: self.lines[self.row - 1].len() as int,
                modified: true,
                ..self
            }
        } else {
            self
        }
    }

    /// The cursor's line broken at the cursor, which moves to the start of
    /// the new line; then scrolled if the cursor reached the status bar.
    pub open spec fn insert_newline(self) -> EditorState {
        EditorState {
            lines: self.lines.update(self.row, self.lines[self.row].take(self.col)).insert(
                self.row + 1,
                self.lines[self.row].skip(self.col),
            ),
            row: self.row + 1,
            col: 0,
            modified: true,
            ..self
        }.scrolled()
    }

    /// Up one line, the column clamped to its length; scrolled back when the
    /// cursor leaves the top of the screen.
    pub open spec fn move_up(self) -> EditorState {
        if self.row > 0 {
            let r = self.row - 1;
            let l = self.lines[r].len() as int;
            EditorState {
                row: r,
                col: if self.col < l { self.col } else { l },
                scroll: if r < self.scroll { self.scroll - 1 } else { self.scroll },
                ..self
            }
        } else {
            self
        }
    }

    /// Down one line, the column clamped to its length; scrolled when the
    /// cursor reaches the status bar.
    pub open spec fn move_down(self) -> EditorState {
        if self.row + 1 < self.lines.len() {
            let r = self.row + 1;
            let l = self.lines[r].len() as int;
            EditorState { row: r, col: if self.col < l { self.col } else { l }, ..self }.scrolled()
        } else {
            self
        }
    }

    /// Left one byte, or to the end of the previous line.
    pub open spec fn move_left(self) -> EditorState {
        if self.col > 0 {
            EditorState { col: self.col - 1, ..self }
        } else if self.row > 0 {
            EditorState {
                row: self.row - 1,
                col: self.lines[self.row - 1].len() as int,
                ..self
            }
        } else {
            self
        }
    }

    /// Right one byte, or to the start of the next line.
    pub open spec fn move_right(self) -> EditorState {
        if self.col < self.line_len() {
            EditorState { col: self.col + 1, ..self }
        } else if self.row + 1 < self.lines.len() {
            EditorState { row: self.row + 1, col: 0, ..self }
        } else {
            self
        }
    }

    /// The cursor at the start of its line.
    pub open spec fn home(self) -> EditorState {
        EditorState { col: 0, ..self }
    }

    /// The cursor at the end of its line.
    pub open spec fn end(self) -> EditorState {
        EditorState { col: self.line_len(), ..self }
    }

    /// The outcome of writing the file: written, the edits are saved.
    pub open spec fn saved(self, written: bool) -> EditorState {
        if written {
            EditorState { modified: false, ..self }
        } else {
            self
        }
    }

    /// The state after a key.
    pub open spec fn handle_key(self, key: Key) -> EditorState {
        match spec_command(key) {
            Command::Newline => self.insert_newline(),
            Command::Backspace => self.backspace(),
            Command::Insert(b) => self.insert_char(b),
            Command::Up => self.move_up(),
            Command::Down => self.move_down(),
            Command::Left => self.move_left(),
            Command::Right => self.move_right(),
            Command::Home => self.home(),
            Command::End => self.end(),
            _ => self,
        }
    }

    /// The key can be handled without an arithmetic underflow: scrolling
    /// needs a screen row for the status bar and the cursor no more than one
    /// row above the screen.
    pub open spec fn key_safe(self, key: Key) -> bool {
        match spec_command(key) {
            Command::Newline => self.rows >= 1 && self.scroll <= self.row + 1,
            Command::Down => self.row + 1 < self.lines.len() ==> (self.rows >= 1 && self.scroll
                <= self.row + 1),
            _ => true,
        }
    }
}

/// The status bar: the file's name, a mark for unsaved edits, the cursor's
/// line and column counted from 1, and the keys for saving and quitting,
/// as `" {name} {mark}  Ln {row + 1} Col {col + 1} | ^S Save  ^Q Quit"`.
pub open spec fn status_text(name: Seq<char>, modified: bool, row: int, col: int) -> Seq<u8> {
    ascii(" "@) + encode_utf8(name) + ascii(" "@) + (if modified {
        ascii(" [modified]"@)
    } else {
        Seq::<u8>::empty()
    }) + ascii("  Ln "@) + decimal((row + 1) as nat) + ascii(" Col "@) + decimal((col + 1) as nat)
        + ascii(" | ^S Save  ^Q Quit"@)
}

/// What one text row of the screen shows.
pub enum RowImage {
    /// The bytes of a file line, cut at the screen's width.
    Text(Vec<u8>),
    /// A row past the end of the file, marked with a tilde in column 0.
    Tilde,
}

impl View for RowImage {
    type V = Option<Seq<u8>>;

    open spec fn view(&self) -> Option<Seq<u8>> {
        match self {
            RowImage::Text(v) => Some(v@),
            RowImage::Tilde => None,
        }
    }
}

/// What the screen shows of an editor. Each text row is cleared in the
/// text colour and its bytes written in it from column 0; a row past the
/// end of the file gets the tilde byte in column 0 in the tilde colour; the
/// status row is cleared and its bytes written in the status colour; then
/// the cursor is moved.
pub struct Frame {
    /// The text rows, from the top.
    pub rows: Vec<RowImage>,
    /// The attribute byte of the text rows: white on black.
    pub text_color: u8,
    /// The byte that marks a row past the end of the file: `~`.
    pub tilde: u8,
    /// The attribute byte of that mark: dark grey on black.
    pub tilde_color: u8,
    /// The attribute byte of the status bar: black on light grey.
    pub status_color: u8,
    /// The row of the status bar.
    pub status_row: usize,
    /// The status bar's bytes.
    pub status: Vec<u8>,
    /// The cursor's screen row.
    pub cursor_row: usize,
    /// The cursor's screen column.
    pub cursor_col: usize,
}

impl EditorState {
    /// What screen row `i` shows: file row `i + scroll`, cut at `cols`
    /// bytes, or `None` (a tilde) past the end of the file.
    pub open spec fn row_image(self, cols: int, i: int) -> Option<Seq<u8>> {
        let r = i + self.scroll;
        if r < self.lines.len() {
            let l = self.lines[r];
            Some(l.take(if l.len() < cols { l.len() as int } else { cols }))
        } else {
            None
        }
    }
}

/// The editor: lines of bytes, the cursor, the first file row shown, the
/// file's name, whether there are unsaved edits, and the screen's size.
pub struct Editor {
    pub lines: Vec<Vec<u8>>,
    pub cursor_row: usize,
    pub cursor_col: usize,
    pub scroll_offset: usize,
    pub filename: String,
    pub modified: bool,
    pub rows: usize,
    pub cols: usize,
}

impl Editor {
    /// The editor's model.
    pub open spec fn state(&self) -> EditorState {
        EditorState {
            lines: seqs(self.lines@),
            row: self.cursor_row as int,
            col: self.cursor_col as int,
            scroll: self.scroll_offset as int,
            modified: self.modified,
            rows: self.rows as int,
        }
    }

    /// The cursor stands within the text.
    pub open spec fn wf(&self) -> bool {
        self.state().wf()
    }

    /// The name and the width are those of `other`.
    pub open spec fn same_file_and_width(&self, other: &Editor) -> bool {
        &&& self.filename@ == other.filename@
        &&& self.cols == other.cols
    }

    /// Opens `filename` on a screen of `rows` by `cols`, with `file` the
    /// file's bytes as read, or `None` where it could not be read (a new
    /// file): the lines are the file split at its newlines (one empty line
    /// for a new file), the cursor at the start, nothing modified.
    pub fn new(filename: &str, rows: usize, cols: usize, file: Option<&[u8]>) -> (e: Editor)
        ensures
            e.wf(),
            e.state() == (EditorState {
                lines: match file {
                    Some(d) => split(d@),
                    None => seq![Seq::<u8>::empty()],
                },
                row: 0,
                col: 0,
                scroll: 0,
                modified: false,
                rows: rows as int,
            }),
            e.filename@ == filename@,
            e.cols == cols,
    {
        let mut lines: Vec<Vec<u8>> = match file {
            Some(data) => split_lines(data),
            None => {
                let mut v: Vec<Vec<u8>> = Vec::new();
                v.push(Vec::new());
                assert(seqs(v@) =~= seq![Seq::<u8>::empty()]);
                v
            },
        };
        proof {
            if let Some(d) = file {
                lemma_split_nonempty(d@);
            }
        }
        if lines.len() == 0 {
            lines.push(Vec::new());
        }
        Editor {
            lines,
            cursor_row: 0,
            cursor_col: 0,
            scroll_offset: 0,
            filename: filename.to_owned(),
            modified: false,
            rows,
            cols,
        }
    }

    /// The rows that show text: all but the status bar.
    pub fn editor_rows(&self) -> (n: usize)
        requires
            self.rows >= 1,
        ensures
            n == self.rows - 1,
    {
        self.rows - 1
    }

    /// The row of the status bar, the last one.
    pub fn status_row(&self) -> (n: usize)
        requires
            self.rows >= 1,
        ensures
            n == self.rows - 1,
    {
        self.rows - 1
    }

    /// The length of the cursor's line.
    pub fn current_line_len(&self) -> (n: usize)
        requires
            self.wf(),
        ensures
            n == self.state().line_len(),
    {
        self.lines[self.cursor_row].len()
    }

    /// Inserts `byte` before the cursor and moves past it.
    pub fn insert_char(&mut self, byte: u8)
        requires
            old(self).wf(),
        ensures
            final(self).wf(),
            final(self).state() == old(self).state().insert_char(byte),
            final(self).same_file_and_width(old(self)),
    {
        let row = self.cursor_row;
        let col = self.cursor_col;
        let ghost s0 = self.state();
        self.lines[row].insert(col, byte);
        assert(self.lines@[row as int]@.len() == self.lines@[row as int].len());
        self.cursor_col = col + 1;
        self.modified = true;
        assert(self.state().lines =~= s0.insert_char(byte).lines);
    }

    /// Scrolls one row down when the cursor has reached the status bar.
    pub fn scroll_if_needed(&mut self)
        requires
            old(self).wf(),
            old(self).rows >= 1,
            old(self).scroll_offset <= old(self).cursor_row,
        ensures
            final(self).wf(),
            final(self).state() == old(self).state().scrolled(),
            final(self).same_file_and_width(old(self)),
    {
        let screen_row = self.cursor_row - self.scroll_offset;
        if screen_row >= self.editor_rows() {
            assert(self.lines@.len() == self.lines.len());
            self.scroll_offset = self.scroll_offset + 1;
        }
    }

    /// Deletes the byte before the cursor; at the start of a line, joins the
    /// line to the previous one; at the start of the file, does nothing.
    pub fn backspace(&mut self)
        requires
            old(self).wf(),
        ensures
            final(self).wf(),
            final(self).state() == old(self).state().backspace(),
            final(self).same_file_and_width(old(self)),
    {
        let row = self.cursor_row;
        let col = self.cursor_col;
        let ghost s0 = self.state();
        if col > 0 {
            self.lines[row].remove(col - 1);
            self.cursor_col = col - 1;
            self.modified = true;
            assert(self.state().lines =~= s0.backspace().lines);
        } else if row > 0 {
            let current = self.lines.remove(row);
            let prev_len = self.lines[row - 1].len();
            append_bytes(&mut self.lines[row - 1], current.as_slice());
            self.cursor_row = row - 1;
            self.cursor_col = prev_len;
            self.modified = true;
            assert(self.state().lines =~= s0.backspace().lines);
        }
    }

    /// Breaks the cursor's line at the cursor and moves to the start of the
    /// new line, scrolling if the cursor reached the status bar.
    pub fn insert_newline(&mut self)
        requires
            old(self).wf(),
            old(self).rows >= 1,
            old(self).scroll_offset <= old(self).cursor_row + 1,
        ensures
            final(self).wf(),
            final(self).state() == old(self).state().insert_newline(),
            final(self).same_file_and_width(old(self)),
    {
        let row = self.cursor_row;
        let col = self.cursor_col;
        let ghost s0 = self.state();
        assert(self.lines@.len() == self.lines.len());
        let rest = self.lines[row].split_off(col);
        self.lines.insert(row + 1, rest);
        self.cursor_row = row + 1;
        self.cursor_col = 0;
        self.modified = true;
        assert(self.state().lines =~= s0.insert_newline().lines);
        self.scroll_if_needed();
    }

    /// Moves up one line, clamping the column, scrolling back when the
    /// cursor leaves the top of the screen.
    pub fn move_up(&mut self)
        requires
            old(self).wf(),
        ensures
            final(self).wf(),
            final(self).state() == old(self).state().move_up(),
            final(self).same_file_and_width(old(self)),
    {
        if self.cursor_row > 0 {
            self.cursor_row = self.cursor_row - 1;
            let len = self.lines[self.cursor_row].len();
            if self.cursor_col > len {
                self.cursor_col = len;
            }
            if self.cursor_row < self.scroll_offset {
                self.scroll_offset = self.scroll_offset - 1;
            }
        }
    }

    /// Moves down one line, clamping the column, scrolling when the cursor
    /// reaches the status bar.
    pub fn move_down(&mut self)
        requires
            old(self).wf(),
            old(self).cursor_row + 1 < old(self).lines.len() ==> (old(self).rows >= 1
                && old(self).scroll_offset <= old(self).cursor_row + 1),
        ensures
            final(self).wf(),
            final(self).state() == old(self).state().move_down(),
            final(self).same_file_and_width(old(self)),
    {
        assert(self.lines@.len() == self.lines.len());
        if self.cursor_row + 1 < self.lines.len() {
            self.cursor_row = self.cursor_row + 1;
            let len = self.lines[self.cursor_row].len();
            if self.cursor_col > len {
                self.cursor_col = len;
            }
            self.scroll_if_needed();
        }
    }

    /// Moves left one byte, or to the end of the previous line.
    pub fn move_left(&mut self)
        requires
            old(self).wf(),
        ensures
            final(self).wf(),
            final(self).state() == old(self).state().move_left(),
            final(self).same_file_and_width(old(self)),
    {
        if self.cursor_col > 0 {
            self.cursor_col = self.cursor_col - 1;
        } else if self.cursor_row > 0 {
            self.cursor_row = self.cursor_row - 1;
            self.cursor_col = self.current_line_len();
        }
    }

    /// Moves right one byte, or to the start of the next line.
    pub fn move_right(&mut self)
        requires
            old(self).wf(),
        ensures
            final(self).wf(),
            final(self).state() == old(self).state().move_right(),
            final(self).same_file_and_width(old(self)),
    {
        let len = self.current_line_len();
        assert(self.lines@.len() == self.lines.len());
        if self.cursor_col < len {
            self.cursor_col = self.cursor_col + 1;
        } else if self.cursor_row + 1 < self.lines.len() {
            self.cursor_row = self.cursor_row + 1;
            self.cursor_col = 0;
        }
    }

    /// Handles one key and says what the caller is to do next: quit, save,
    /// or redraw and go on.
    pub fn handle_key(&mut self, key: Key) -> (action: EditorAction)
        requires
            old(self).wf(),
            old(self).state().key_safe(key),
        ensures
            final(self).wf(),
            final(self).state() == old(self).state().handle_key(key),
            final(self).same_file_and_width(old(self)),
            action == spec_action(key),
    {
        match command_for(key) {
            Command::Quit => {
                return EditorAction::Quit;
            },
            Command::Save => {
                return EditorAction::Save;
            },
            Command::Newline => self.insert_newline(),
            Command::Backspace => self.backspace(),
            Command::Insert(b) => self.insert_char(b),
            Command::Up => self.move_up(),
            Command::Down => self.move_down(),
            Command::Left => self.move_left(),
            Command::Right => self.move_right(),
            Command::Home => {
                self.cursor_col = 0;
            },
            Command::End => {
                self.cursor_col = self.current_line_len();
            },
            Command::Ignore => {},
        }
        EditorAction::Continue
    }

    /// The bytes to write to the file: the lines joined with newlines.
    pub fn contents(&self) -> (data: Vec<u8>)
        ensures
            data@ == self.state().text(),
    {
        join_lines(&self.lines)
    }

    /// Records the outcome of writing `contents()` to the file: once it is
    /// written, nothing is left unsaved.
    pub fn save(&mut self, written: bool)
        ensures
            final(self).state() == old(self).state().saved(written),
            final(self).same_file_and_width(old(self)),
    {
        if written {
            self.modified = false;
        }
    }

    /// The status bar's bytes.
    pub fn draw_status(&self) -> (status: Vec<u8>)
        ensures
            status@ == status_text(
                self.filename@,
                self.modified,
                self.cursor_row as int,
                self.cursor_col as int,
            ),
    {
        let mut out: Vec<u8> = Vec::new();
        proof {
            reveal_strlit(" ");
            reveal_strlit(" [modified]");
            reveal_strlit("  Ln ");
            reveal_strlit(" Col ");
            reveal_strlit(" | ^S Save  ^Q Quit");
        }
        push_ascii(&mut out, " ");
        append_bytes(&mut out, self.filename.as_str().as_bytes());
        push_ascii(&mut out, " ");
        let ghost before_mark = out@;
        if self.modified {
            push_ascii(&mut out, " [modified]");
        }
        assert(out@ =~= before_mark + (if self.modified {
            ascii(" [modified]"@)
        } else {
            Seq::<u8>::empty()
        }));
        push_ascii(&mut out, "  Ln ");
        push_decimal(&mut out, self.cursor_row as u128 + 1);
        push_ascii(&mut out, " Col ");
        push_decimal(&mut out, self.cursor_col as u128 + 1);
        push_ascii(&mut out, " | ^S Save  ^Q Quit");
        assert(out@ =~= status_text(
            self.filename@,
            self.modified,
            self.cursor_row as int,
            self.cursor_col as int,
        ));
        out
    }

    /// What the screen is to show: each text row, the status bar, and the
    /// cursor's place on screen.
    pub fn draw(&self) -> (f: Frame)
        requires
            self.wf(),
            self.rows >= 1,
            self.scroll_offset <= self.cursor_row,
        ensures
            f.rows@.len() == self.rows - 1,
            forall|i: int|
                0 <= i < f.rows@.len() ==> #[trigger] f.rows@[i]@ == self.state().row_image(
                    self.cols as int,
                    i,
                ),
            f.status_row == self.rows - 1,
            f.status@ == status_text(
                self.filename@,
                self.modified,
                self.cursor_row as int,
                self.cursor_col as int,
            ),
            f.cursor_row == self.cursor_row - self.scroll_offset,
            f.cursor_col == self.cursor_col,
            f.text_color == spec_color(Color::White, Color::Black),
            f.tilde == '~' as u8,
            f.tilde_color == spec_color(Color::DarkGray, Color::Black),
            f.status_color == spec_color(Color::Black, Color::LightGray),
    {
        let editor_rows = self.editor_rows();
        let shown = self.lines.len() - self.scroll_offset;
        let mut rows: Vec<RowImage> = Vec::new();
        let mut screen_row: usize = 0;
        while screen_row < editor_rows
            invariant
                self.wf(),
                self.scroll_offset <= self.cursor_row,
                editor_rows == self.rows - 1,
                shown == self.lines@.len() - self.scroll_offset,
                screen_row <= editor_rows,
                rows@.len() == screen_row,
                forall|i: int|
                    0 <= i < screen_row ==> #[trigger] rows@[i]@ == self.state().row_image(
                        self.cols as int,
                        i,
                    ),
            decreases editor_rows - screen_row,
        {
            if screen_row < shown {
                assert(self.lines@.len() == self.lines.len());
                let line = &self.lines[screen_row + self.scroll_offset];
                let n = if line.len() < self.cols {
                    line.len()
                } else {
                    self.cols
                };
                let part = vstd::slice::slice_to_vec(
                    vstd::slice::slice_subrange(line.as_slice(), 0, n),
                );
                assert(part@ =~= line@.take(n as int));
                rows.push(RowImage::Text(part));
            } else {
                rows.push(RowImage::Tilde);
            }
            screen_row = screen_row + 1;
        }
        Frame {
            rows,
            text_color: color(Color::White, Color::Black),
            tilde: '~' as u8,
            tilde_color: color(Color::DarkGray, Color::Black),
            status_color: color(Color::Black, Color::LightGray),
            status_row: self.status_row(),
            status: self.draw_status(),
            cursor_row: self.cursor_row - self.scroll_offset,
            cursor_col: self.cursor_col,
        }
    }

    /// Whether `handle_key` can take `key` in this state (see `key_safe`).
    pub fn key_is_safe(&self, key: Key) -> (ok: bool)
        requires
            self.wf(),
        ensures
            ok == self.state().key_safe(key),
    {
        assert(self.lines@.len() == self.lines.len());
        match command_for(key) {
            Command::Newline => self.rows >= 1 && self.scroll_offset <= self.cursor_row + 1,
            Command::Down => {
                if self.cursor_row + 1 < self.lines.len() {
                    self.rows >= 1 && self.scroll_offset <= self.cursor_row + 1
                } else {
                    true
                }
            },
            _ => true,
        }
    }
}

} // verus!