//! The text buffer: a document of lines, a cursor kept within it, the active
//! mode and the keys typed towards a prefix or a command.

use vstd::prelude::*;

use crate::text::{document_of, joined, push_char, split_document, views};

verus! {

/// Terminal width that a new buffer lays its status line out for.
pub const DEFAULT_WIDTH: usize = 80;

/// Terminal height that a new buffer lays its status line out for.
pub const DEFAULT_HEIGHT: usize = 24;

/// The interpreter's modes; exactly one is active at a time.
#[derive(Clone, Copy, Debug, PartialEq, Eq, Structural)]
pub enum Mode {
    Normal,
    NormalPrefix,
    Insert,
    Command,
}

/// The last column that the cursor may rest on in a line of length `len`.
pub open spec fn last_col(len: int) -> int {
    if len <= 0 {
        0
    } else {
        len - 1
    }
}

/// The column that a request for column `want` lands on in a line of length
/// `len`; a cursor that clings to the end lands on the last column.
pub open spec fn clamp_col(want: int, len: int, cling: bool) -> int {
    if cling {
        last_col(len)
    } else if want < 0 {
        0
    } else if want > last_col(len) {
        last_col(len)
    } else {
        want
    }
}

/// The row that a request for row `want` lands on in a document of `count`
/// lines.
pub open spec fn clamp_row(want: int, count: int) -> int {
    if want < 0 {
        0
    } else if want > count - 1 {
        count - 1
    } else {
        want
    }
}

/// The number of spaces that `l` starts with.
pub open spec fn indent(l: Seq<char>) -> int
    decreases l.len(),
{
    if l.len() == 0 || l[0] != ' ' {
        0
    } else {
        1 + indent(l.drop_first())
    }
}

/// Whether every character of `l` before column `x` is a space.
pub open spec fn blank_before(l: Seq<char>, x: int) -> bool {
    forall|i: int| 0 <= i < x ==> l[i] == ' '
}

/// The column that a backspace at column `x > 0` of `l` goes back to: the
/// previous multiple of four within leading spaces, else one column.
pub open spec fn backspace_stop(l: Seq<char>, x: int) -> int {
    if blank_before(l, x) {
        if x % 4 == 0 {
            x - 4
        } else {
            x - x % 4
        }
    } else {
        x - 1
    }
}

/// What a buffer holds, as mathematical values.
pub ghost struct BufferView {
    pub lines: Seq<Seq<char>>,
    pub filename: Seq<char>,
    pub mode: Mode,
    pub command: Seq<char>,
    pub x: int,
    pub y: int,
    pub width: int,
    pub height: int,
    pub cling_to_end: bool,
    pub normal_prefix: Seq<char>,
}

impl BufferView {
    /// The line the cursor is on.
    pub open spec fn cur(self) -> Seq<char> {
        self.lines[self.y]
    }

    /// The document has a line and the row addresses one of them.
    pub open spec fn rows_ok(self) -> bool {
        &&& self.lines.len() >= 1
        &&& 0 <= self.y < self.lines.len()
    }

    /// The row addresses a line and the column is at most that line's length.
    pub open spec fn wf(self) -> bool {
        &&& self.rows_ok()
        &&& 0 <= self.x <= self.cur().len()
    }

    pub open spec fn add_x(self, n: int) -> BufferView {
        BufferView { x: clamp_col(self.x + n, self.cur().len() as int, self.cling_to_end), ..self }
    }

    pub open spec fn add_y(self, n: int) -> BufferView {
        BufferView { y: clamp_row(self.y + n, self.lines.len() as int), ..self }
    }

    pub open spec fn left(self) -> BufferView {
        BufferView { cling_to_end: false, ..self }.add_x(-1)
    }

    pub open spec fn right(self) -> BufferView {
        BufferView { cling_to_end: false, ..self }.add_x(1)
    }

    pub open spec fn up(self) -> BufferView {
        self.add_y(-1).add_x(0)
    }

    pub open spec fn down(self) -> BufferView {
        self.add_y(1).add_x(0)
    }

    pub open spec fn jump_line_start(self) -> BufferView {
        BufferView { x: indent(self.cur()), ..self }
    }

    pub open spec fn jump_line_start_abs(self) -> BufferView {
        BufferView { x: 0, ..self }
    }

    pub open spec fn jump_line_end_abs(self) -> BufferView {
        BufferView { cling_to_end: true, x: last_col(self.cur().len() as int), ..self }
    }

    pub open spec fn jump_top(self) -> BufferView {
        BufferView { y: 0, ..self }.add_x(0)
    }

    pub open spec fn jump_middle(self) -> BufferView {
        BufferView { y: self.lines.len() as int / 2, ..self }.add_x(0)
    }

    pub open spec fn jump_bottom(self) -> BufferView {
        BufferView { y: self.lines.len() as int - 1, ..self }.add_x(0)
    }

    pub open spec fn backspace(self) -> BufferView {
        if self.x == 0 {
            self
        } else {
            let stop = backspace_stop(self.cur(), self.x);
            BufferView {
                lines: self.lines.update(self.y, self.cur().take(stop) + self.cur().skip(self.x)),
                x: stop,
                ..self
            }
        }
    }

    pub open spec fn del(self) -> BufferView {
        if self.x < self.cur().len() {
            BufferView { lines: self.lines.update(self.y, self.cur().remove(self.x)), ..self }
        } else {
            self
        }
    }

    pub open spec fn del_after(self) -> BufferView {
        BufferView {
            lines: self.lines.update(self.y, self.cur().take(self.x)),
            x: if self.x > 0 { self.x - 1 } else { 0 },
            ..self
        }
    }

    pub open spec fn insert_line(self, index: int) -> BufferView {
        BufferView { lines: self.lines.insert(index, Seq::empty()), ..self }
    }

    pub open spec fn enter(self) -> BufferView {
        BufferView {
            lines: self.lines.update(self.y, self.cur().take(self.x)).insert(
                self.y + 1,
                self.cur().skip(self.x),
            ),
            y: self.y + 1,
            x: 0,
            ..self
        }
    }

    pub open spec fn insert_string(self, s: Seq<char>) -> BufferView {
        BufferView {
            lines: self.lines.update(self.y, self.cur().take(self.x) + s + self.cur().skip(self.x)),
            x: self.x + s.len(),
            ..self
        }
    }

    /// Removes the cursor's line; the last line of a document is emptied
    /// instead, so that a document never has zero lines.
    pub open spec fn delete_line(self) -> BufferView {
        if self.lines.len() == 1 {
            BufferView { lines: seq![Seq::empty()], y: 0, ..self }
        } else {
            BufferView {
                lines: self.lines.remove(self.y),
                y: if self.y == self.lines.len() - 1 { self.y - 1 } else { self.y },
                ..self
            }
        }
    }

    pub open spec fn set_mode(self, mode: Mode) -> BufferView {
        BufferView { mode, ..self }
    }

    /// Back to Normal mode: the prefix and command are dropped and the cursor
    /// steps back one column.
    pub open spec fn mode_normal(self) -> BufferView {
        BufferView {
            normal_prefix: Seq::empty(),
            command: Seq::empty(),
            mode: Mode::Normal,
            ..self
        }.left()
    }

    /// Into Command mode: the command line starts empty; the cursor stays.
    pub open spec fn mode_command(self) -> BufferView {
        BufferView { command: Seq::empty(), mode: Mode::Command, ..self }
    }

    /// Adds `c` to the prefix; once it reads `dd` the line is deleted and the
    /// buffer returns to Normal mode.
    pub open spec fn prefix(self, c: char) -> BufferView {
        let p = BufferView { normal_prefix: self.normal_prefix.push(c), ..self };
        if p.normal_prefix == seq!['d', 'd'] {
            p.delete_line().mode_normal()
        } else {
            p
        }
    }

    pub open spec fn type_command(self, c: char) -> BufferView {
        BufferView { command: self.command.push(c), ..self }
    }
}

/// The spaces that `l` starts with are its first `indent(l)` characters.
pub proof fn lemma_indent(l: Seq<char>)
    ensures
        0 <= indent(l) <= l.len(),
        forall|k: int| 0 <= k < indent(l) ==> l[k] == ' ',
        indent(l) < l.len() ==> l[indent(l)] != ' ',
    decreases l.len(),
{
    if l.len() > 0 && l[0] == ' ' {
        lemma_indent(l.drop_first());
        assert forall|k: int| 0 <= k < indent(l) implies l[k] == ' ' by {
            if k > 0 {
                assert(l[k] == l.drop_first()[k - 1]);
            }
        }
    }
}

/// A document with a cursor, in one of the editor's modes.
pub struct Buffer {
    /// The document, one string per line.
    pub lines: Vec<String>,
    /// The file that the document was read from and is saved to.
    pub filename: String,
    pub mode: Mode,
    /// The characters typed after `:`.
    pub command: String,
    /// Cursor column.
    pub x: usize,
    /// Cursor row.
    pub y: usize,
    /// Terminal dimensions, for placing the status and command lines.
    pub width: usize,
    pub height: usize,
    /// Set by a jump to the line's end: vertical moves then keep the cursor on
    /// each line's last character until a horizontal move.
    pub cling_to_end: bool,
    /// The keys typed so far towards a multi-key Normal-mode command.
    pub normal_prefix: String,
}

impl View for Buffer {
    type V = BufferView;

    open spec fn view(&self) -> BufferView {
        BufferView {
            lines: views(self.lines@),
            filename: self.filename@,
            mode: self.mode,
            command: self.command@,
            x: self.x as int,
            y: self.y as int,
            width: self.width as int,
            height: self.height as int,
            cling_to_end: self.cling_to_end,
            normal_prefix: self.normal_prefix@,
        }
    }
}

impl Buffer {
    /// Opens the text `string` of the file `filename` in Normal mode, with the
    /// cursor at the top left.
    pub fn new(string: &String, filename: String) -> (r: Self)
        ensures
            r@ == (BufferView {
                lines: document_of(string@),
                filename: filename@,
                mode: Mode::Normal,
                command: Seq::empty(),
                x: 0,
                y: 0,
                width: DEFAULT_WIDTH as int,
                height: DEFAULT_HEIGHT as int,
                cling_to_end: false,
                normal_prefix: Seq::empty(),
            }),
            r@.wf(),
    {
        let lines = split_document(string);
        Self {
            filename,
            lines,
            mode: Mode::Normal,
            command: String::new(),
            x: 0,
            y: 0,
            width: DEFAULT_WIDTH,
            height: DEFAULT_HEIGHT,
            cling_to_end: false,
            normal_prefix: String::new(),
        }
    }

    /// The length of the cursor's line.
    fn cur_len(&self) -> (r: usize)
        requires
            self@.rows_ok(),
        ensures
            r == self@.cur().len(),
    {
        self.lines[self.y].as_str().unicode_len()
    }

    /// The line the cursor is on.
    pub fn line(&self) -> (r: &String)
        requires
            self@.rows_ok(),
        ensures
            r@ == self@.cur(),
    {
        &self.lines[self.y]
    }

    /// Moves the cursor `n` columns, clamped to the line (or onto its last
    /// column, when clinging to the end).
    pub fn add_x(&mut self, n: isize)
        requires
            old(self)@.rows_ok(),
        ensures
            final(self)@ == old(self)@.add_x(n as int),
            final(self)@.wf(),
    {
        let len = self.cur_len();
        let last: usize = if len == 0 { 0 } else { len - 1 };
        let sum: i128 = self.x as i128 + n as i128;
        self.x = if self.cling_to_end {
            last
        } else if sum < 0 {
            0
        } else if sum > last as i128 {
            last
        } else {
            sum as usize
        };
    }

    /// Moves the cursor `n` rows, clamped to the document; the column is left
    /// as it is.
    pub fn add_y(&mut self, n: isize)
        requires
            old(self)@.rows_ok(),
        ensures
            final(self)@ == old(self)@.add_y(n as int),
            final(self)@.rows_ok(),
    {
        let count = self.lines.len();
        let sum: i128 = self.y as i128 + n as i128;
        self.y = if sum < 0 {
            0
        } else if sum > (count - 1) as i128 {
            count - 1
        } else {
            sum as usize
        };
    }

    pub fn left(&mut self)
        requires
            old(self)@.rows_ok(),
        ensures
            final(self)@ == old(self)@.left(),
            final(self)@.wf(),
    {
        self.cling_to_end = false;
        self.add_x(-1);
    }

    pub fn right(&mut self)
        requires
            old(self)@.rows_ok(),
        ensures
            final(self)@ == old(self)@.right(),
            final(self)@.wf(),
    {
        self.cling_to_end = false;
        self.add_x(1);
    }

    pub fn up(&mut self)
        requires
            old(self)@.rows_ok(),
        ensures
            final(self)@ == old(self)@.up(),
            final(self)@.wf(),
    {
        self.add_y(-1);
        self.add_x(0);
    }

    pub fn down(&mut self)
        requires
            old(self)@.rows_ok(),
        ensures
            final(self)@ == old(self)@.down(),
            final(self)@.wf(),
    {
        self.add_y(1);
        self.add_x(0);
    }

    pub fn jump_top(&mut self)
        requires
            old(self)@.rows_ok(),
        ensures
            final(self)@ == old(self)@.jump_top(),
            final(self)@.wf(),
    {
        self.y = 0;
        self.add_x(0);
    }

    pub fn jump_middle(&mut self)
        requires
            old(self)@.rows_ok(),
        ensures
            final(self)@ == old(self)@.jump_middle(),
            final(self)@.wf(),
    {
        self.y = self.lines.len() / 2;
        self.add_x(0);
    }

    pub fn jump_bottom(&mut self)
        requires
            old(self)@.rows_ok(),
        ensures
            final(self)@ == old(self)@.jump_bottom(),
            final(self)@.wf(),
    {
        self.y = self.lines.len() - 1;
        self.add_x(0);
    }

    pub fn jump_line_start_abs(&mut self)
        requires
            old(self)@.rows_ok(),
        ensures
            final(self)@ == old(self)@.jump_line_start_abs(),
            final(self)@.wf(),
    {
        self.x = 0;
    }

    pub fn jump_line_end_abs(&mut self)
        requires
            old(self)@.rows_ok(),
        ensures
            final(self)@ == old(self)@.jump_line_end_abs(),
            final(self)@.wf(),
    {
        self.cling_to_end = true;
        let len = self.cur_len();
        self.x = if len == 0 { 0 } else { len - 1 };
    }

    /// The characters of the cursor's line from column `from` up to `to`.
    fn slice(&self, from: usize, to: usize) -> (r: String)
        requires
            self@.rows_ok(),
            from <= to <= self@.cur().len(),
        ensures
            r@ == self@.cur().subrange(from as int, to as int),
    {
        self.lines[self.y].as_str().substring_char(from, to).to_owned()
    }

    /// Puts `line` in place of the cursor's line.
    fn replace_line(&mut self, line: String)
        requires
            old(self)@.rows_ok(),
        ensures
            final(self)@ == (BufferView {
                lines: old(self)@.lines.update(old(self)@.y, line@),
                ..old(self)@
            }),
    {
        let ghost l = line@;
        self.lines.set(self.y, line);
        assert(views(self.lines@) =~= views(old(self).lines@).update(self.y as int, l));
    }

    /// The number of spaces that the cursor's line starts with.
    fn cur_indent(&self) -> (r: usize)
        requires
            self@.rows_ok(),
        ensures
            r == indent(self@.cur()),
    {
        let line = self.lines[self.y].as_str();
        let len = line.unicode_len();
        let mut i: usize = 0;
        let mut found = false;
        while !found && i < len
            invariant
                i <= len,
                len == line@.len(),
                line@ == self@.cur(),
                forall|k: int| 0 <= k < i ==> line@[k] == ' ',
                found ==> i < len && line@[i as int] != ' ',
            decreases len - i + (if found { 0int } else { 1int }),
        {
            if line.get_char(i) == ' ' {
                i += 1;
            } else {
                found = true;
            }
        }
        proof {
            lemma_indent(line@);
            let d = indent(line@);
            if (i as int) < d {
                assert(line@[i as int] == ' ');
            }
            if d < i {
                assert(line@[d] == ' ');
            }
        }
        i
    }

    /// Moves the cursor to the first character of its line that is not a
    /// space (past the end of a line of spaces).
    pub fn jump_line_start(&mut self)
        requires
            old(self)@.rows_ok(),
        ensures
            final(self)@ == old(self)@.jump_line_start(),
            final(self)@.wf(),
    {
        proof { lemma_indent(self@.cur()); }
        self.x = self.cur_indent();
    }

    /// Whether everything left of the cursor is a space.
    fn leading_whitespace(&self) -> (r: bool)
        requires
            self@.wf(),
        ensures
            r == blank_before(self@.cur(), self@.x),
    {
        let d = self.cur_indent();
        proof {
            let l = self@.cur();
            lemma_indent(l);
            if self.x > d {
                assert(l[d as int] != ' ');
            }
        }
        self.x <= d
    }

    /// Deletes left of the cursor: back to the previous multiple of four
    /// within leading spaces, else one character; nothing at column 0.
    pub fn backspace(&mut self)
        requires
            old(self)@.wf(),
        ensures
            final(self)@ == old(self)@.backspace(),
            final(self)@.wf(),
    {
        if self.x == 0 {
            return;
        }
        let stop: usize = if self.leading_whitespace() {
            if self.x % 4 == 0 {
                self.x - 4
            } else {
                self.x - self.x % 4
            }
        } else {
            self.x - 1
        };
        let len = self.cur_len();
        let mut modified = self.slice(0, stop);
        let rest = self.slice(self.x, len);
        modified.append(rest.as_str());
        assert(self@.cur().subrange(0, stop as int) == self@.cur().take(stop as int));
        assert(self@.cur().subrange(self.x as int, len as int) =~= self@.cur().skip(self.x as int));
        self.replace_line(modified);
        self.x = stop;
    }

    /// Deletes the character under the cursor; the column stays where it is.
    /// Past the end of the line there is nothing to delete.
    pub fn del(&mut self)
        requires
            old(self)@.rows_ok(),
        ensures
            final(self)@ == old(self)@.del(),
    {
        let len = self.cur_len();
        if self.x < len {
            let mut modified = self.slice(0, self.x);
            let rest = self.slice(self.x + 1, len);
            modified.append(rest.as_str());
            assert(modified@ =~= self@.cur().remove(self.x as int));
            self.replace_line(modified);
        }
    }

    /// Cuts the cursor's line at the cursor, which steps back onto the new
    /// last character.
    pub fn del_after(&mut self)
        requires
            old(self)@.wf(),
        ensures
            final(self)@ == old(self)@.del_after(),
            final(self)@.wf(),
    {
        let kept = self.slice(0, self.x);
        assert(kept@ =~= self@.cur().take(self.x as int));
        self.replace_line(kept);
        if self.x > 0 {
            self.x -= 1;
        }
    }

    /// Inserts an empty line at `index`; the cursor does not move.
    pub fn insert_line(&mut self, index: usize)
        requires
            old(self)@.rows_ok(),
            index <= old(self)@.lines.len(),
        ensures
            final(self)@ == old(self)@.insert_line(index as int),
            final(self)@.rows_ok(),
    {
        self.lines.insert(index, String::new());
        assert(views(self.lines@) =~= views(old(self).lines@).insert(index as int, Seq::empty()));
    }

    /// Splits the cursor's line at the cursor; the cursor moves to the start
    /// of the new line below.
    pub fn enter(&mut self)
        requires
            old(self)@.wf(),
        ensures
            final(self)@ == old(self)@.enter(),
            final(self)@.wf(),
    {
        let len = self.cur_len();
        let count = self.lines.len();
        assert(self.y < count);
        let head = self.slice(0, self.x);
        let tail = self.slice(self.x, len);
        assert(head@ =~= self@.cur().take(self.x as int));
        assert(tail@ =~= self@.cur().skip(self.x as int));
        let ghost h = head@;
        let ghost tl = tail@;
        let ghost before = views(self.lines@);
        self.lines.set(self.y, head);
        self.lines.insert(self.y + 1, tail);
        assert(views(self.lines@) =~= before.update(self.y as int, h).insert(self.y + 1, tl));
        self.y = self.y + 1;
        self.x = 0;
    }

    /// Inserts `string` at the cursor, which moves past it.
    pub fn insert_string(&mut self, string: &String)
        requires
            old(self)@.wf(),
        ensures
            final(self)@ == old(self)@.insert_string(string@),
            final(self)@.wf(),
    {
        let len = self.cur_len();
        let mut line = self.slice(0, self.x);
        line.append(string.as_str());
        let rest = self.slice(self.x, len);
        line.append(rest.as_str());
        let n = string.as_str().unicode_len();
        let total = line.as_str().unicode_len();
        assert(line@ =~= self@.cur().take(self.x as int) + string@ + self@.cur().skip(self.x as int));
        self.replace_line(line);
        self.x = self.x + n;
        assert(total >= self.x);
    }

    /// Inserts the character `char_to_insert` at the cursor.
    pub fn insert(&mut self, char_to_insert: char)
        requires
            old(self)@.wf(),
        ensures
            final(self)@ == old(self)@.insert_string(seq![char_to_insert]),
            final(self)@.wf(),
    {
        let mut s = String::new();
        push_char(&mut s, char_to_insert);
        assert(s@ =~= seq![char_to_insert]);
        self.insert_string(&s);
    }

    fn set_mode(&mut self, mode: Mode)
        ensures
            final(self)@ == old(self)@.set_mode(mode),
    {
        self.mode = mode;
    }

    /// Enters Normal mode; see `BufferView::mode_normal`.
    pub fn mode_normal(&mut self)
        requires
            old(self)@.rows_ok(),
        ensures
            final(self)@ == old(self)@.mode_normal(),
            final(self)@.wf(),
    {
        self.normal_prefix = String::new();
        self.command = String::new();
        self.set_mode(Mode::Normal);
        self.left();
    }

    pub fn mode_normal_prefix(&mut self)
        ensures
            final(self)@ == old(self)@.set_mode(Mode::NormalPrefix),
    {
        self.set_mode(Mode::NormalPrefix);
    }

    pub fn mode_insert(&mut self)
        ensures
            final(self)@ == old(self)@.set_mode(Mode::Insert),
    {
        self.set_mode(Mode::Insert);
    }

    /// Enters Command mode with an empty command line.
    pub fn mode_command(&mut self)
        ensures
            final(self)@ == old(self)@.mode_command(),
    {
        self.command = String::new();
        self.set_mode(Mode::Command);
    }

    /// Adds `prefix_char` to the Normal-mode prefix and runs the command it
    /// completes, if any (`dd` deletes the cursor's line).
    pub fn prefix(&mut self, prefix_char: char)
        requires
            old(self)@.wf(),
        ensures
            final(self)@ == old(self)@.prefix(prefix_char),
            final(self)@.wf(),
    {
        push_char(&mut self.normal_prefix, prefix_char);
        let p = self.normal_prefix.as_str();
        let is_dd = p.unicode_len() == 2 && p.get_char(0) == 'd' && p.get_char(1) == 'd';
        assert(is_dd <==> self.normal_prefix@ =~= seq!['d', 'd']);
        if is_dd {
            if self.lines.len() == 1 {
                self.lines.set(0, String::new());
                self.y = 0;
                assert(views(self.lines@) =~= seq![Seq::<char>::empty()]);
            } else {
                self.lines.remove(self.y);
                assert(views(self.lines@) =~= views(old(self).lines@).remove(self.y as int));
                if self.y == self.lines.len() {
                    self.y -= 1;
                }
            }
            self.mode_normal();
        }
    }

    /// Adds `command_char` to the command line.
    pub fn type_command(&mut self, command_char: char)
        ensures
            final(self)@ == old(self)@.type_command(command_char),
    {
        push_char(&mut self.command, command_char);
    }

    /// The document in its saved form: each line followed by a newline.
    pub fn stringify(&self) -> (r: String)
        ensures
            r@ == joined(self@.lines),
    {
        let mut out = String::new();
        let mut i: usize = 0;
        let ghost ls = self@.lines;
        while i < self.lines.len()
            invariant
                i <= self.lines.len(),
                ls == views(self.lines@),
                out@ == joined(ls.take(i as int)),
            decreases self.lines.len() - i,
        {
            out.append(self.lines[i].as_str());
            push_char(&mut out, '\n');
            assert(ls.take(i + 1).drop_last() =~= ls.take(i as int));
            i += 1;
        }
        assert(ls.take(ls.len() as int) =~= ls);
        out
    }
}

} // verus!
