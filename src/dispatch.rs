//! The keystroke interpreter: what each key does in each mode, and what the
//! caller is asked to do afterwards (save the document, end the session).

use vstd::prelude::*;

use crate::buffer::{Buffer, BufferView, Mode, backspace_stop, indent, lemma_indent};

verus! {

/// Interrupt (Ctrl-C).
pub const CTRL_C: char = '\u{3}';

pub const TAB: char = '\t';

/// The delete-backward key.
pub const BACKSPACE: char = '\u{7f}';

/// Carriage return, as the Enter key sends it.
pub const ENTER: char = '\r';

pub const ESC: char = '\u{1b}';

/// What the caller does after a keystroke has been handled.
#[derive(Clone, Copy, Debug, PartialEq, Eq, Structural)]
pub enum Action {
    /// Keep reading keys.
    Continue,
    /// Write the saved form of the document to its file, then keep reading.
    Save,
    /// End the session without saving.
    Quit,
    /// Write the document, then end the session.
    SaveAndQuit,
}

/// The column that `A` appends at: one past the line's last character.
pub open spec fn append_col(v: BufferView) -> int {
    if v.x < v.cur().len() {
        v.x + 1
    } else {
        v.x
    }
}

/// A key in Normal mode.
pub open spec fn normal_key(v: BufferView, c: char) -> BufferView {
    if c == 'h' {
        v.left()
    } else if c == 'l' {
        v.right()
    } else if c == 'k' {
        v.up()
    } else if c == 'j' {
        v.down()
    } else if c == '^' {
        v.jump_line_start()
    } else if c == '0' {
        v.jump_line_start_abs()
    } else if c == '$' {
        v.jump_line_end_abs()
    } else if c == 'H' {
        v.jump_top()
    } else if c == 'M' {
        v.jump_middle()
    } else if c == 'L' {
        v.jump_bottom()
    } else if c == ':' {
        v.mode_command()
    } else if c == 'i' {
        v.set_mode(Mode::Insert)
    } else if c == 'a' {
        v.add_x(1).set_mode(Mode::Insert)
    } else if c == 'I' {
        v.jump_line_start().set_mode(Mode::Insert)
    } else if c == 'A' {
        let e = v.jump_line_end_abs();
        BufferView { x: append_col(e), ..e }.set_mode(Mode::Insert)
    } else if c == 'o' {
        BufferView { y: v.y + 1, x: 0, ..v.insert_line(v.y + 1) }.set_mode(Mode::Insert)
    } else if c == 'O' {
        BufferView { x: 0, ..v.insert_line(v.y) }.set_mode(Mode::Insert)
    } else if c == 'D' {
        v.del_after()
    } else if c == 'C' {
        let d = v.del_after();
        BufferView { x: if d.x == 0 { 0 } else { d.x + 1 }, ..d }.set_mode(Mode::Insert)
    } else if c == 'x' {
        v.del()
    } else if c == 'X' {
        BufferView { x: if v.x > 0 { v.x - 1 } else { 0 }, ..v }.del()
    } else if c == 's' {
        v.del().set_mode(Mode::Insert)
    } else if c == 'S' {
        BufferView { x: 0, ..v }.del_after().set_mode(Mode::Insert)
    } else if c == 'd' {
        v.set_mode(Mode::NormalPrefix).prefix('d')
    } else {
        v
    }
}

/// A key in Normal-prefix mode: interrupt cancels, anything else extends
/// the prefix.
pub open spec fn prefix_key(v: BufferView, c: char) -> BufferView {
    if c == CTRL_C {
        v.mode_normal()
    } else {
        v.prefix(c)
    }
}

/// A key in Insert mode.
pub open spec fn insert_key(v: BufferView, c: char) -> BufferView {
    if c == ESC || c == CTRL_C {
        v.mode_normal()
    } else if c == TAB {
        v.insert_string(seq![' ', ' ', ' ', ' '])
    } else if c == ENTER {
        v.enter()
    } else if c == BACKSPACE {
        v.backspace()
    } else {
        v.insert_string(seq![c])
    }
}

/// A key in Command mode. Enter runs `w`, `q` or `wq`; any other command is
/// left on the command line.
pub open spec fn command_key(v: BufferView, c: char) -> (BufferView, Action) {
    if c == CTRL_C {
        (v.mode_normal(), Action::Continue)
    } else if c == ENTER {
        if v.command == seq!['w'] {
            (v.mode_normal(), Action::Save)
        } else if v.command == seq!['q'] {
            (v, Action::Quit)
        } else if v.command == seq!['w', 'q'] {
            (v, Action::SaveAndQuit)
        } else {
            (v, Action::Continue)
        }
    } else {
        (v.type_command(c), Action::Continue)
    }
}

/// The buffer after the key `c`, and what the caller is to do.
pub open spec fn step(v: BufferView, c: char) -> (BufferView, Action) {
    match v.mode {
        Mode::Normal => (normal_key(v, c), Action::Continue),
        Mode::NormalPrefix => (prefix_key(v, c), Action::Continue),
        Mode::Insert => (insert_key(v, c), Action::Continue),
        Mode::Command => command_key(v, c),
    }
}

/// The buffer after the keys `keys`, one after another.
pub open spec fn run(v: BufferView, keys: Seq<char>) -> BufferView
    decreases keys.len(),
{
    if keys.len() == 0 {
        v
    } else {
        step(run(v, keys.drop_last()), keys.last()).0
    }
}

/// The Normal-mode keys that move the cursor between rows.
pub open spec fn is_vertical_key(c: char) -> bool {
    c == 'k' || c == 'j' || c == 'H' || c == 'M' || c == 'L'
}

/// The Normal-mode keys that move the cursor within its line.
pub open spec fn is_horizontal_key(c: char) -> bool {
    c == 'h' || c == 'l' || c == '^' || c == '0' || c == '$'
}

/// A column request on any line lands within it.
proof fn lemma_add_x_valid(v: BufferView, n: int)
    requires
        v.rows_ok(),
    ensures
        v.add_x(n).wf(),
        v.left().wf(),
        v.right().wf(),
        v.mode_normal().wf(),
{
}

/// The editing operations keep the cursor valid.
proof fn lemma_edits_valid(v: BufferView, s: Seq<char>)
    requires
        v.wf(),
    ensures
        v.backspace().wf(),
        v.del().wf(),
        v.del_after().wf(),
        v.enter().wf(),
        v.insert_string(s).wf(),
{
    if v.x > 0 {
        let stop = backspace_stop(v.cur(), v.x);
        assert(v.backspace().cur() == v.cur().take(stop) + v.cur().skip(v.x));
    }
    assert(v.enter().cur() == v.cur().skip(v.x));
    assert(v.insert_string(s).cur() == v.cur().take(v.x) + s + v.cur().skip(v.x));
}

proof fn lemma_normal_key_valid(v: BufferView, c: char)
    requires
        v.wf(),
    ensures
        normal_key(v, c).wf(),
{
    lemma_indent(v.cur());
    lemma_add_x_valid(v, 0);
    lemma_add_x_valid(v.add_y(-1), 0);
    lemma_add_x_valid(v.add_y(1), 0);
    lemma_add_x_valid(BufferView { y: 0, ..v }, 0);
    lemma_add_x_valid(BufferView { y: v.lines.len() as int / 2, ..v }, 0);
    lemma_add_x_valid(BufferView { y: v.lines.len() as int - 1, ..v }, 0);
    lemma_edits_valid(v, Seq::empty());
    if c == 'X' {
        let back = if v.x > 0 { v.x - 1 } else { 0 };
        lemma_edits_valid(BufferView { x: back, ..v }, Seq::empty());
    } else if c == 'S' {
        lemma_edits_valid(BufferView { x: 0, ..v }, Seq::empty());
    } else if c == 'C' {
        let d = v.del_after();
        assert(d.cur() == v.cur().take(v.x));
    } else if c == 'o' {
        assert(v.insert_line(v.y + 1).lines[v.y + 1] == Seq::<char>::empty());
    } else if c == 'O' {
        assert(v.insert_line(v.y).lines[v.y] == Seq::<char>::empty());
    } else if c == 'd' {
        let p = v.set_mode(Mode::NormalPrefix);
        let q = BufferView { normal_prefix: p.normal_prefix.push('d'), ..p };
        lemma_add_x_valid(q.delete_line(), 0);
    }
}

proof fn lemma_prefix_key_valid(v: BufferView, c: char)
    requires
        v.wf(),
    ensures
        prefix_key(v, c).wf(),
{
    lemma_add_x_valid(v, 0);
    let q = BufferView { normal_prefix: v.normal_prefix.push(c), ..v };
    lemma_add_x_valid(q.delete_line(), 0);
}

/// One keystroke, in any mode, leaves the row on a line and the column at
/// most that line's length.
proof fn lemma_step_keeps_cursor_valid(v: BufferView, c: char)
    requires
        v.wf(),
    ensures
        step(v, c).0.wf(),
{
    lemma_add_x_valid(v, 0);
    match v.mode {
        Mode::Normal => lemma_normal_key_valid(v, c),
        Mode::NormalPrefix => lemma_prefix_key_valid(v, c),
        Mode::Insert => {
            lemma_edits_valid(v, seq![' ', ' ', ' ', ' ']);
            lemma_edits_valid(v, seq![c]);
        },
        Mode::Command => {},
    }
}

/// From Normal mode, whatever the command line held before, typing `:wq`
/// then Enter asks for a save and the end of the session; `:q` then Enter
/// asks only to end it; `:w` then Enter asks for a save and returns to
/// Normal mode with an empty command line.
pub proof fn lemma_commands_from_normal(v: BufferView)
    requires
        v.wf(),
        v.mode == Mode::Normal,
    ensures
        step(run(v, seq![':', 'w', 'q']), ENTER).1 == Action::SaveAndQuit,
        step(run(v, seq![':', 'q']), ENTER).1 == Action::Quit,
        step(run(v, seq![':', 'w']), ENTER).1 == Action::Save,
        step(run(v, seq![':', 'w']), ENTER).0.mode == Mode::Normal,
        step(run(v, seq![':', 'w']), ENTER).0.command == Seq::<char>::empty(),
        step(run(v, seq![':', 'w']), ENTER).0.lines == v.lines,
{
    let wq = seq![':', 'w', 'q'];
    let q = seq![':', 'q'];
    let w = seq![':', 'w'];
    assert(wq.drop_last() =~= w);
    assert(w.drop_last() =~= seq![':']);
    assert(q.drop_last() =~= seq![':']);
    assert(seq![':'].drop_last() =~= Seq::<char>::empty());
    assert(run(v, Seq::<char>::empty()) == v);
    assert(run(v, seq![':']) == step(v, ':').0);
    let c = run(v, seq![':']);
    assert(c == v.mode_command());
    assert(run(v, w) == step(c, 'w').0);
    assert(run(v, q) == step(c, 'q').0);
    assert(run(v, wq) == step(run(v, w), 'q').0);
    assert(run(v, w).command =~= seq!['w']);
    assert(run(v, q).command =~= seq!['q']);
    assert(run(v, wq).command =~= seq!['w', 'q']);
}

/// However many keys are typed, the document keeps at least one line, the
/// row stays on a line and the column stays within that line (at most its
/// length).
pub proof fn lemma_keys_keep_cursor_valid(v: BufferView, keys: Seq<char>)
    requires
        v.wf(),
    ensures
        run(v, keys).wf(),
    decreases keys.len(),
{
    if keys.len() > 0 {
        lemma_keys_keep_cursor_valid(v, keys.drop_last());
        lemma_step_keeps_cursor_valid(run(v, keys.drop_last()), keys.last());
    }
}

/// Any sequence of up, down, top, middle and bottom moves in Normal mode
/// leaves the document as it is and the row within `[0, N-1]` for a
/// document of `N` lines.
pub proof fn lemma_vertical_moves_keep_row(v: BufferView, keys: Seq<char>)
    requires
        v.wf(),
        v.mode == Mode::Normal,
        forall|i: int| 0 <= i < keys.len() ==> is_vertical_key(#[trigger] keys[i]),
    ensures
        run(v, keys).lines == v.lines,
        run(v, keys).mode == Mode::Normal,
        0 <= run(v, keys).y <= v.lines.len() - 1,
        run(v, keys).wf(),
    decreases keys.len(),
{
    if keys.len() > 0 {
        let rest = keys.drop_last();
        assert forall|i: int| 0 <= i < rest.len() implies is_vertical_key(#[trigger] rest[i]) by {
            assert(rest[i] == keys[i]);
        }
        lemma_vertical_moves_keep_row(v, rest);
        assert(is_vertical_key(keys[keys.len() - 1]));
    }
}

/// On a non-empty line, any sequence of left, right, line-start and
/// line-end moves in Normal mode keeps the column within `[0, length-1]`
/// and the row where it is. A line-start move (`^`) lands past the end of
/// a line made only of spaces, so such a line is covered only by
/// sequences without `^`.
pub proof fn lemma_horizontal_moves_keep_column(v: BufferView, keys: Seq<char>)
    requires
        v.wf(),
        v.mode == Mode::Normal,
        v.cur().len() > 0,
        v.x <= v.cur().len() - 1,
        forall|i: int| 0 <= i < keys.len() ==> is_horizontal_key(#[trigger] keys[i]),
        (exists|k: int| 0 <= k < v.cur().len() && v.cur()[k] != ' ') || (forall|i: int|
            0 <= i < keys.len() ==> #[trigger] keys[i] != '^'),
    ensures
        run(v, keys).lines == v.lines,
        run(v, keys).y == v.y,
        run(v, keys).mode == Mode::Normal,
        0 <= run(v, keys).x <= v.cur().len() - 1,
    decreases keys.len(),
{
    if keys.len() > 0 {
        let rest = keys.drop_last();
        assert forall|i: int| 0 <= i < rest.len() implies is_horizontal_key(#[trigger] rest[i]) by {
            assert(rest[i] == keys[i]);
        }
        if !(exists|k: int| 0 <= k < v.cur().len() && v.cur()[k] != ' ') {
            assert forall|i: int| 0 <= i < rest.len() implies #[trigger] rest[i] != '^' by {
                assert(rest[i] == keys[i]);
            }
        }
        lemma_horizontal_moves_keep_column(v, rest);
        let c = keys[keys.len() - 1];
        assert(is_horizontal_key(c));
        if c == '^' {
            let l = v.cur();
            lemma_indent(l);
            let k = choose|k: int| 0 <= k < l.len() && l[k] != ' ';
            if indent(l) >= l.len() {
                assert(l[k] == ' ');
            }
        }
    }
}

/// Whether the command line holds exactly `a`.
fn is_command(command: &String, a: char) -> (r: bool)
    ensures
        r == (command@ == seq![a]),
{
    let s = command.as_str();
    let r = s.unicode_len() == 1 && s.get_char(0) == a;
    assert(r <==> command@ =~= seq![a]);
    r
}

/// Whether the command line holds exactly `a` then `b`.
fn is_command_pair(command: &String, a: char, b: char) -> (r: bool)
    ensures
        r == (command@ == seq![a, b]),
{
    let s = command.as_str();
    let r = s.unicode_len() == 2 && s.get_char(0) == a && s.get_char(1) == b;
    assert(r <==> command@ =~= seq![a, b]);
    r
}

/// Runs the Normal-mode command bound to `c`, if any.
fn normal_key_exec(buffer: &mut Buffer, c: char)
    requires
        old(buffer)@.wf(),
    ensures
        final(buffer)@ == normal_key(old(buffer)@, c),
        final(buffer)@.wf(),
{
    if c == 'h' {
        buffer.left();
    } else if c == 'l' {
        buffer.right();
    } else if c == 'k' {
        buffer.up();
    } else if c == 'j' {
        buffer.down();
    } else if c == '^' {
        buffer.jump_line_start();
    } else if c == '0' {
        buffer.jump_line_start_abs();
    } else if c == '$' {
        buffer.jump_line_end_abs();
    } else if c == 'H' {
        buffer.jump_top();
    } else if c == 'M' {
        buffer.jump_middle();
    } else if c == 'L' {
        buffer.jump_bottom();
    } else if c == ':' {
        buffer.mode_command();
    } else if c == 'i' {
        buffer.mode_insert();
    } else if c == 'a' {
        buffer.add_x(1);
        buffer.mode_insert();
    } else if c == 'I' {
        buffer.jump_line_start();
        buffer.mode_insert();
    } else if c == 'A' {
        buffer.jump_line_end_abs();
        if buffer.x < buffer.line().as_str().unicode_len() {
            buffer.x = buffer.x + 1;
        }
        buffer.mode_insert();
    } else if c == 'o' {
        let count = buffer.lines.len();
        assert(buffer.y < count);
        let below = buffer.y + 1;
        buffer.insert_line(below);
        buffer.y = below;
        buffer.x = 0;
        buffer.mode_insert();
    } else if c == 'O' {
        buffer.insert_line(buffer.y);
        buffer.x = 0;
        buffer.mode_insert();
    } else if c == 'D' {
        buffer.del_after();
    } else if c == 'C' {
        buffer.del_after();
        if buffer.x != 0 {
            buffer.x = buffer.x + 1;
        }
        buffer.mode_insert();
    } else if c == 'x' {
        buffer.del();
    } else if c == 'X' {
        if buffer.x != 0 {
            buffer.x = buffer.x - 1;
        }
        buffer.del();
    } else if c == 's' {
        buffer.del();
        buffer.mode_insert();
    } else if c == 'S' {
        buffer.x = 0;
        buffer.del_after();
        buffer.mode_insert();
    } else if c == 'd' {
        buffer.mode_normal_prefix();
        buffer.prefix('d');
    }
}

/// Handles one keystroke according to the active mode, and says what the
/// caller is to do next.
#[verifier::rlimit(20)]
pub fn handle_key(buffer: &mut Buffer, c: char) -> (r: Action)
    requires
        old(buffer)@.wf(),
    ensures
        (final(buffer)@, r) == step(old(buffer)@, c),
        final(buffer)@.wf(),
{
    match buffer.mode {
        Mode::Normal => {
            normal_key_exec(buffer, c);
            Action::Continue
        },
        Mode::NormalPrefix => {
            if c == CTRL_C {
                buffer.mode_normal();
            } else {
                buffer.prefix(c);
            }
            Action::Continue
        },
        Mode::Insert => {
            if c == ESC || c == CTRL_C {
                buffer.mode_normal();
            } else if c == TAB {
                let spaces = "    ".to_owned();
                proof { reveal_strlit("    "); }
                assert(spaces@ =~= seq![' ', ' ', ' ', ' ']);
                buffer.insert_string(&spaces);
            } else if c == ENTER {
                buffer.enter();
            } else if c == BACKSPACE {
                buffer.backspace();
            } else {
                buffer.insert(c);
            }
            Action::Continue
        },
        Mode::Command => {
            if c == CTRL_C {
                buffer.mode_normal();
                Action::Continue
            } else if c == ENTER {
                if is_command(&buffer.command, 'w') {
                    buffer.mode_normal();
                    Action::Save
                } else if is_command(&buffer.command, 'q') {
                    Action::Quit
                } else if is_command_pair(&buffer.command, 'w', 'q') {
                    Action::SaveAndQuit
                } else {
                    Action::Continue
                }
            } else {
                buffer.type_command(c);
                Action::Continue
            }
        },
    }
}

} // verus!
